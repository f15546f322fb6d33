//! Editing the text of a symbol library: adding a symbol and replacing the
//! block of an existing one. Both the current S-expression format, where each
//! symbol is a `(symbol "NAME" ...)` block, and the old format, where each is
//! a `DEF NAME ...` to `ENDDEF` block, are handled.

use vstd::prelude::*;
use crate::text::{
    is_whitespace, contains, find_chars_from, find_first, find_from, occurs_at, push_char, str_chars,
    string_from_range, trim_end, trim_end_matches, trimmed_end, trimmed_end_matches,
};

verus! {

/// The first lines of a new library in the current format.
pub open spec fn v6_header() -> Seq<char> {
    "(kicad_symbol_lib\n  (version 20211014)\n  (generator nlbn)"@
}

/// The first lines of a new library in the old format.
pub open spec fn v5_header() -> Seq<char> {
    "EESchema-LIBRARY Version 2.4\n#encoding utf-8"@
}

/// Symbol data in the current format holds a `(symbol` block.
pub open spec fn is_v6_symbol(data: Seq<char>) -> bool {
    contains(data, "(symbol"@)
}

/// The library text after `data` is added to a library with text
/// `existing` (`None` for a new library): the existing text loses its
/// trailing white space and closing parentheses, the data follows on a new
/// line, and data in the current format is closed by a `)` line.
pub open spec fn library_with_added(existing: Option<Seq<char>>, data: Seq<char>) -> Seq<char> {
    let base = match existing {
        Some(e) => trim_end_matches(trim_end(e), ')'),
        None => if is_v6_symbol(data) {
            v6_header()
        } else {
            v5_header()
        },
    };
    base + seq!['\n'] + data + (if is_v6_symbol(data) {
        seq!['\n', ')']
    } else {
        Seq::<char>::empty()
    }) + seq!['\n']
}

/// The opening of the block of symbol `name` in the current format.
pub open spec fn symbol_search(name: Seq<char>) -> Seq<char> {
    "(symbol \""@ + name + "\""@
}

/// The opening of the block of symbol `name` in the old format.
pub open spec fn def_search(name: Seq<char>) -> Seq<char> {
    "DEF "@ + name + " "@
}

/// Opening minus closing parentheses in `s`.
pub open spec fn paren_balance(s: Seq<char>) -> int
    decreases s.len(),
{
    if s.len() == 0 {
        0
    } else {
        paren_balance(s.drop_last()) + if s.last() == '(' {
            1int
        } else if s.last() == ')' {
            -1int
        } else {
            0int
        }
    }
}

/// `s[j]` closes the parenthesis at `open`: it is a `)` and `s[open..=j]`
/// is balanced.
pub open spec fn closes_at(s: Seq<char>, open: int, j: int) -> bool {
    0 <= open <= j < s.len() && s[j] == ')' && paren_balance(s.subrange(open, j + 1)) == 0
}

/// The first index at or after `j` where the parenthesis at `open` closes.
pub open spec fn closing_from(s: Seq<char>, open: int, j: int) -> Option<int>
    decreases s.len() - j,
{
    if j < open || j >= s.len() {
        None
    } else if closes_at(s, open, j) {
        Some(j)
    } else {
        closing_from(s, open, j + 1)
    }
}

/// The index below `i` once a run of spaces before `i` is passed.
pub open spec fn before_spaces(s: Seq<char>, i: int) -> int
    decreases i,
{
    if i > 0 && s[i - 1] == ' ' {
        before_spaces(s, i - 1)
    } else {
        i
    }
}

/// Where the block starting at `start` begins once the indentation before
/// it and the newline before that are taken along.
pub open spec fn block_start_before(s: Seq<char>, start: int) -> int {
    let k = before_spaces(s, start);
    if k > 0 && s[k - 1] == '\n' {
        k - 1
    } else {
        k
    }
}

/// `content` with the block of `name` in the current format replaced by
/// `new`: from the newline and indentation before `(symbol "NAME"` to its
/// closing parenthesis, where a newline starts the new text.
pub open spec fn v6_replacement(content: Seq<char>, name: Seq<char>, new: Seq<char>) -> Option<
    Seq<char>,
> {
    match find_first(content, symbol_search(name)) {
        Some(start) => match closing_from(content, start, start) {
            Some(j) => Some(
                content.take(block_start_before(content, start)) + seq!['\n'] + new + content.skip(
                    j + 1,
                ),
            ),
            None => None,
        },
        None => None,
    }
}

/// `content` with the block of `name` in the current format replaced by
/// `new`: from `(symbol "NAME"` to its closing parenthesis, the indentation
/// before the block and the text after it kept as they are.
pub open spec fn v6_block_replacement(content: Seq<char>, name: Seq<char>, new: Seq<char>) -> Option<
    Seq<char>,
> {
    match find_first(content, symbol_search(name)) {
        Some(start) => match closing_from(content, start, start) {
            Some(j) => Some(content.take(start) + new + content.skip(j + 1)),
            None => None,
        },
        None => None,
    }
}

/// `content` with the block of `name` in the old format replaced by `new`:
/// from `DEF NAME ` to the next `ENDDEF` and the newline after it.
pub open spec fn v5_replacement(content: Seq<char>, name: Seq<char>, new: Seq<char>) -> Option<
    Seq<char>,
> {
    match find_first(content, def_search(name)) {
        Some(start) => match find_from(content, "ENDDEF"@, start) {
            Some(e) => {
                let end = e + "ENDDEF"@.len();
                let end = if end < content.len() && content[end] == '\n' {
                    end + 1
                } else {
                    end
                };
                Some(content.take(start) + new + content.skip(end))
            },
            None => None,
        },
        None => None,
    }
}

/// The text after the block of `name` is replaced: in the current format if
/// its block is found and closed, else in the old format.
pub open spec fn replaced_component(content: Seq<char>, name: Seq<char>, new: Seq<char>) -> Option<
    Seq<char>,
> {
    match v6_replacement(content, name, new) {
        Some(r) => Some(r),
        None => v5_replacement(content, name, new),
    }
}

/// The text after an explicit update of `name`: its current-format block
/// replaced in place if it is found and closed, else its old-format block.
pub open spec fn updated_component(content: Seq<char>, name: Seq<char>, new: Seq<char>) -> Option<
    Seq<char>,
> {
    match v6_block_replacement(content, name, new) {
        Some(r) => Some(r),
        None => v5_replacement(content, name, new),
    }
}

/// Where the parenthesis at `open` closes, found from `j` on, is the first
/// such place.
pub proof fn lemma_closing_from(s: Seq<char>, open: int, j: int)
    requires
        0 <= open <= j,
    ensures
        match closing_from(s, open, j) {
            Some(r) => j <= r && closes_at(s, open, r) && forall|k: int|
                j <= k < r ==> !closes_at(s, open, k),
            None => forall|k: int| j <= k ==> !closes_at(s, open, k),
        },
    decreases s.len() - j,
{
    if j >= s.len() {
    } else if closes_at(s, open, j) {
    } else {
        lemma_closing_from(s, open, j + 1);
    }
}

/// Adding to a library that an earlier addition of symbol data in the
/// current format produced keeps all of it but the final `)` line: the new
/// data follows on a line of its own, and one `)` line closes the library.
pub proof fn lemma_add_keeps_library(existing: Option<Seq<char>>, a: Seq<char>, b: Seq<char>)
    requires
        is_v6_symbol(a),
    ensures
        ({
            let first = library_with_added(existing, a);
            library_with_added(Some(first), b) == first.drop_last().drop_last() + seq!['\n'] + b
                + (if is_v6_symbol(b) {
                seq!['\n', ')']
            } else {
                Seq::<char>::empty()
            }) + seq!['\n']
        }),
{
    let base = match existing {
        Some(e) => trim_end_matches(trim_end(e), ')'),
        None => v6_header(),
    };
    let p = base + seq!['\n'] + a;
    let first = library_with_added(existing, a);
    assert(first =~= p + seq!['\n', ')', '\n']);
    assert(first.drop_last() =~= p + seq!['\n', ')']);
    assert(first.drop_last().drop_last() =~= p + seq!['\n']);
    assert(is_whitespace(first.last()));
    assert(trim_end(first.drop_last()) == first.drop_last());
    assert(trim_end(first) == first.drop_last());
    assert(trim_end_matches(first.drop_last().drop_last(), ')') == first.drop_last().drop_last());
    assert(trim_end_matches(first.drop_last(), ')') == first.drop_last().drop_last());
}

/// The parentheses of two texts put together balance as the two do.
pub proof fn lemma_paren_balance_concat(a: Seq<char>, b: Seq<char>)
    ensures
        paren_balance(a + b) == paren_balance(a) + paren_balance(b),
    decreases b.len(),
{
    if b.len() == 0 {
        assert(a + b =~= a);
    } else {
        lemma_paren_balance_concat(a, b.drop_last());
        assert((a + b).drop_last() =~= a + b.drop_last());
        assert((a + b).last() == b.last());
    }
}

/// Adding symbol data to a library that an earlier addition of current-format
/// data produced keeps every earlier symbol: each opening `(symbol "NAME"`
/// stays where it was, the new data follows, and the parentheses balance as
/// before plus those of the new data (so a balanced library stays balanced
/// when balanced current-format data is added).
pub proof fn lemma_add_keeps_symbols(
    existing: Option<Seq<char>>,
    a: Seq<char>,
    b: Seq<char>,
    name: Seq<char>,
    i: int,
)
    requires
        is_v6_symbol(a),
    ensures
        ({
            let first = library_with_added(existing, a);
            let second = library_with_added(Some(first), b);
            &&& occurs_at(first, symbol_search(name), i) ==> occurs_at(
                second,
                symbol_search(name),
                i,
            )
            &&& occurs_at(second, b, first.len() - 1)
            &&& paren_balance(second) == paren_balance(first) + paren_balance(b) + if is_v6_symbol(
                b,
            ) {
                0int
            } else {
                1int
            }
        }),
{
    let first = library_with_added(existing, a);
    let second = library_with_added(Some(first), b);
    lemma_add_keeps_library(existing, a, b);
    let prefix = first.drop_last().drop_last();
    let tail = if is_v6_symbol(b) {
        seq!['\n', ')']
    } else {
        Seq::<char>::empty()
    };
    assert(second == prefix + seq!['\n'] + b + tail + seq!['\n']);
    let base = match existing {
        Some(e) => trim_end_matches(trim_end(e), ')'),
        None => v6_header(),
    };
    assert(first =~= base + seq!['\n'] + a + seq!['\n', ')', '\n']);
    assert(first[first.len() - 1] == '\n');
    assert(first[first.len() - 2] == ')');
    let pat = symbol_search(name);
    if occurs_at(first, pat, i) {
        reveal_strlit("\"");
        assert(pat.last() == '"');
        let e = i + pat.len() - 1;
        assert(first[e] == first.subrange(i, i + pat.len())[pat.len() - 1]);
        assert(e < first.len() - 2);
        assert(second.subrange(i, i + pat.len()) =~= first.subrange(i, i + pat.len())) by {
            assert forall|k: int| 0 <= k < pat.len() implies #[trigger] second.subrange(i, i + pat.len())[k]
                == first.subrange(i, i + pat.len())[k] by {
                assert(second[i + k] == prefix[i + k]);
                assert(prefix[i + k] == first[i + k]);
            }
        }
    }
    assert(second.subrange(first.len() - 1, first.len() - 1 + b.len()) =~= b);
    lemma_paren_balance_concat(prefix, seq![')']);
    assert(first.drop_last() =~= prefix + seq![')']);
    assert(first =~= first.drop_last().push('\n'));
    assert(paren_balance(seq![')']) == -1) by {
        assert(seq![')'].drop_last() =~= Seq::<char>::empty());
    }
    assert(paren_balance(first) == paren_balance(first.drop_last()));
    lemma_paren_balance_concat(prefix, seq!['\n']);
    lemma_paren_balance_concat(prefix + seq!['\n'], b);
    lemma_paren_balance_concat(prefix + seq!['\n'] + b, tail);
    lemma_paren_balance_concat(prefix + seq!['\n'] + b + tail, seq!['\n']);
    assert(paren_balance(seq!['\n']) == 0) by {
        assert(seq!['\n'].drop_last() =~= Seq::<char>::empty());
        assert(paren_balance(Seq::<char>::empty()) == 0);
        assert(seq!['\n'].last() == '\n');
    }
    if is_v6_symbol(b) {
        assert(paren_balance(tail) == -1) by {
            assert(tail.drop_last() =~= seq!['\n']);
            assert(seq!['\n'].drop_last() =~= Seq::<char>::empty());
        }
    } else {
        assert(paren_balance(tail) == 0);
    }
}

/// Whether symbol data is in the current format.
pub fn symbol_data_is_v6(data: &str) -> (res: bool)
    ensures
        res == is_v6_symbol(data@),
{
    let d = str_chars(data);
    let pat = str_chars("(symbol");
    find_chars_from(&d, &pat, 0).is_some()
}

/// The library text after `data` is added to the library with text
/// `existing` (`None` for a new library).
pub fn add_to_library(existing: Option<&str>, data: &str) -> (res: String)
    ensures
        res@ == library_with_added(
            match existing {
                Some(e) => Some(e@),
                None => None,
            },
            data@,
        ),
{
    let v6 = symbol_data_is_v6(data);
    let mut content = match existing {
        Some(e) => {
            let c = str_chars(e);
            let end = trimmed_end(&c);
            let k = trimmed_end_matches(&c, end, ')');
            assert(c@.subrange(0, k as int) =~= c@.take(k as int));
            string_from_range(&c, 0, k)
        },
        None => if v6 {
            "(kicad_symbol_lib\n  (version 20211014)\n  (generator nlbn)".to_owned()
        } else {
            "EESchema-LIBRARY Version 2.4\n#encoding utf-8".to_owned()
        },
    };
    push_char(&mut content, '\n');
    content.append(data);
    if v6 {
        push_char(&mut content, '\n');
        push_char(&mut content, ')');
    }
    push_char(&mut content, '\n');
    proof {
        let base = match existing {
            Some(e) => trim_end_matches(trim_end(e@), ')'),
            None => if v6 {
                v6_header()
            } else {
                v5_header()
            },
        };
        if v6 {
            assert(content@ =~= base + seq!['\n'] + data@ + seq!['\n', ')'] + seq!['\n']);
        } else {
            assert(content@ =~= base + seq!['\n'] + data@ + Seq::<char>::empty() + seq!['\n']);
        }
    }
    content
}

/// The index where the parenthesis at `open` closes.
fn find_closing(s: &[char], open: usize) -> (res: Option<usize>)
    requires
        open < s@.len(),
        s@[open as int] == '(',
    ensures
        match closing_from(s@, open as int, open as int) {
            Some(j) => res == Some(j as usize),
            None => res is None,
        },
{
    let n = s.len();
    let mut depth: usize = 1;
    let mut j: usize = open + 1;
    assert(s@.subrange(open as int, open + 1).drop_last() =~= s@.subrange(open as int, open as int));
    assert(s@.subrange(open as int, open as int) =~= Seq::<char>::empty());
    assert(s@.subrange(open as int, open + 1).last() == '(');
    assert(paren_balance(Seq::<char>::empty()) == 0);
    assert(paren_balance(s@.subrange(open as int, open + 1)) == 1);
    assert(!closes_at(s@, open as int, open as int));
    while j < n
        invariant
            n == s@.len(),
            open < j <= n,
            1 <= depth <= j - open,
            paren_balance(s@.subrange(open as int, j as int)) == depth as int,
            closing_from(s@, open as int, open as int) == closing_from(s@, open as int, j as int),
        decreases n - j,
    {
        assert(s@.subrange(open as int, j + 1).drop_last() =~= s@.subrange(open as int, j as int));
        if s[j] == '(' {
            depth = depth + 1;
        } else if s[j] == ')' {
            depth = depth - 1;
            if depth == 0 {
                return Some(j);
            }
        }
        j = j + 1;
    }
    None
}

/// The index below `i` once a run of spaces before `i` is passed.
fn skip_spaces_back(s: &[char], i: usize) -> (res: usize)
    requires
        i <= s@.len(),
    ensures
        res as int == before_spaces(s@, i as int),
        res <= i,
{
    let mut k = i;
    while k > 0 && s[k - 1] == ' '
        invariant
            k <= i <= s@.len(),
            before_spaces(s@, k as int) == before_spaces(s@, i as int),
        decreases k,
    {
        k = k - 1;
    }
    k
}

/// `c[..a] + middle + c[b..]`.
fn splice(c: &[char], a: usize, middle: &str, b: usize) -> (res: String)
    requires
        a <= c@.len(),
        b <= c@.len(),
    ensures
        res@ == c@.take(a as int) + middle@ + c@.skip(b as int),
{
    let mut out = string_from_range(c, 0, a);
    out.append(middle);
    let rest = string_from_range(c, b, c.len());
    out.append(rest.as_str());
    assert(c@.subrange(0, a as int) =~= c@.take(a as int));
    assert(c@.subrange(b as int, c@.len() as int) =~= c@.skip(b as int));
    out
}

/// The characters of the current-format opening of symbol `name`.
fn symbol_search_chars(name: &str) -> (res: Vec<char>)
    ensures
        res@ == symbol_search(name@),
        res@.len() > 0,
        res@[0] == '(',
{
    let mut s = "(symbol \"".to_owned();
    s.append(name);
    s.append("\"");
    proof {
        reveal_strlit("(symbol \"");
    }
    str_chars(s.as_str())
}

/// The characters of the old-format opening of symbol `name`.
fn def_search_chars(name: &str) -> (res: Vec<char>)
    ensures
        res@ == def_search(name@),
{
    let mut s = "DEF ".to_owned();
    s.append(name);
    s.append(" ");
    str_chars(s.as_str())
}

/// The text after the old-format block of `name` is replaced by `new`.
fn replace_v5_block(c: &[char], name: &str, new: &str) -> (res: Option<String>)
    ensures
        match v5_replacement(c@, name@, new@) {
            Some(r) => res matches Some(s) && s@ == r,
            None => res is None,
        },
{
    let pat = def_search_chars(name);
    assert(c@.len() == c.len());
    match find_chars_from(c, &pat, 0) {
        None => None,
        Some(start) => {
            proof {
                crate::text::lemma_find_from(c@, pat@, 0);
            }
            let enddef = str_chars("ENDDEF");
            match find_chars_from(c, &enddef, start) {
                None => None,
                Some(e) => {
                    proof {
                        crate::text::lemma_find_from(c@, enddef@, start as int);
                    }
                    assert(c@.len() == c.len());
                    let mut end = e + enddef.len();
                    if end < c.len() && c[end] == '\n' {
                        end = end + 1;
                    }
                    Some(splice(c, start, new, end))
                },
            }
        },
    }
}

/// The library text `content` with the block of `name` replaced by `new`,
/// as an added-or-updated symbol replaces it (see `replaced_component`).
pub fn replace_component(content: &str, name: &str, new: &str) -> (res: Option<String>)
    ensures
        match replaced_component(content@, name@, new@) {
            Some(r) => res matches Some(s) && s@ == r,
            None => res is None,
        },
{
    let c = str_chars(content);
    assert(c@.len() == c.len());
    let pat = symbol_search_chars(name);
    if let Some(start) = find_chars_from(&c, &pat, 0) {
        proof {
            crate::text::lemma_find_from(c@, pat@, 0);
        }
        assert(occurs_at(c@, pat@, start as int));
        assert(c@[start as int] == c@.subrange(start as int, start + pat@.len())[0]);
        match find_closing(&c, start) {
            Some(j) => {
                proof {
                    lemma_closing_from(c@, start as int, start as int);
                }
                assert(closing_from(c@, start as int, start as int) == Some(j as int));
                let k = skip_spaces_back(&c, start);
                let block_start = if k > 0 && c[k - 1] == '\n' {
                    k - 1
                } else {
                    k
                };
                let mut middle = "\n".to_owned();
                middle.append(new);
                proof {
                    reveal_strlit("\n");
                }
                assert(middle@ =~= seq!['\n'] + new@);
                let out = splice(&c, block_start, middle.as_str(), j + 1);
                assert(out@ =~= c@.take(block_start as int) + seq!['\n'] + new@ + c@.skip(j + 1));
                return Some(out);
            },
            None => {},
        }
    }
    replace_v5_block(&c, name, new)
}

/// The library text `content` with the block of `name` replaced by `new`,
/// as an explicit update replaces it (see `updated_component`).
pub fn update_component_text(content: &str, name: &str, new: &str) -> (res: Option<String>)
    ensures
        match updated_component(content@, name@, new@) {
            Some(r) => res matches Some(s) && s@ == r,
            None => res is None,
        },
{
    let c = str_chars(content);
    assert(c@.len() == c.len());
    let pat = symbol_search_chars(name);
    if let Some(start) = find_chars_from(&c, &pat, 0) {
        proof {
            crate::text::lemma_find_from(c@, pat@, 0);
        }
        assert(occurs_at(c@, pat@, start as int));
        assert(c@[start as int] == c@.subrange(start as int, start + pat@.len())[0]);
        match find_closing(&c, start) {
            Some(j) => {
                proof {
                    lemma_closing_from(c@, start as int, start as int);
                }
                return Some(splice(&c, start, new, j + 1));
            },
            None => {},
        }
    }
    replace_v5_block(&c, name, new)
}

} // verus!
