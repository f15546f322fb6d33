//! Regular-expression searches, done by the `regex` crate.

use vstd::prelude::*;

verus! {

/// The compiled regular expression of the `regex` crate; opaque here.
#[verifier::external_type_specification]
#[verifier::external_body]
pub struct ExRegex(regex::Regex);

/// Whether `regex::Regex::new` accepts `pattern`.
pub uninterp spec fn regex_compiles(pattern: Seq<char>) -> bool;

/// What `regex::Regex::is_match` answers for a regex compiled from `pattern`.
pub uninterp spec fn regex_is_match(pattern: Seq<char>, haystack: Seq<char>) -> bool;

/// The texts of the successive non-overlapping matches that
/// `regex::Regex::find_iter` yields for a regex compiled from `pattern`.
pub uninterp spec fn regex_find_all(pattern: Seq<char>, haystack: Seq<char>) -> Seq<Seq<char>>;

/// A regular expression together with the pattern it was compiled from.
pub struct CompiledRegex {
    pattern: String,
    inner: regex::Regex,
}

impl CompiledRegex {
    /// The pattern this regular expression was compiled from.
    pub closed spec fn pattern(&self) -> Seq<char> {
        self.pattern@
    }
}

/// The characters that `regex::escape` puts a backslash in front of
/// (`regex_syntax::is_meta_character`).
pub open spec fn is_regex_meta(c: char) -> bool {
    c == '\\' || c == '.' || c == '+' || c == '*' || c == '?' || c == '(' || c == ')' || c == '|'
        || c == '[' || c == ']' || c == '{' || c == '}' || c == '^' || c == '$' || c == '#' || c
        == '&' || c == '-' || c == '~'
}

/// `s` with a backslash in front of each meta character: the result of
/// `regex::escape`, which matches `s` literally.
pub open spec fn regex_escaped(s: Seq<char>) -> Seq<char>
    decreases s.len(),
{
    if s.len() == 0 {
        Seq::<char>::empty()
    } else {
        regex_escaped(s.drop_last()) + if is_regex_meta(s.last()) {
            seq!['\\', s.last()]
        } else {
            seq![s.last()]
        }
    }
}

/// Escaping text piece by piece gives the escape of the whole.
pub proof fn lemma_regex_escaped_concat(a: Seq<char>, b: Seq<char>)
    ensures
        regex_escaped(a + b) == regex_escaped(a) + regex_escaped(b),
    decreases b.len(),
{
    if b.len() == 0 {
        assert(a + b =~= a);
        assert(regex_escaped(a) + regex_escaped(b) =~= regex_escaped(a));
    } else {
        lemma_regex_escaped_concat(a, b.drop_last());
        assert((a + b).drop_last() =~= a + b.drop_last());
        assert((a + b).last() == b.last());
        assert(b.drop_last().push(b.last()) =~= b);
        let tail = if is_regex_meta(b.last()) {
            seq!['\\', b.last()]
        } else {
            seq![b.last()]
        };
        assert(regex_escaped(b) == regex_escaped(b.drop_last()) + tail);
        assert(regex_escaped(a) + regex_escaped(b.drop_last()) + tail =~= regex_escaped(a) + (
        regex_escaped(b.drop_last()) + tail));
    }
}

/// Calls `regex::Regex::new`. The contract claims that compilation succeeds
/// exactly when `regex_compiles` holds of the pattern, and that the result
/// remembers the pattern it was compiled from.
#[verifier::external_body]
pub fn compile_regex(pattern: &str) -> (res: Option<CompiledRegex>)
    ensures
        res is Some <==> regex_compiles(pattern@),
        res matches Some(r) ==> r.pattern() == pattern@,
{
    match regex::Regex::new(pattern) {
        Ok(inner) => Some(CompiledRegex { pattern: pattern.to_string(), inner }),
        Err(_) => None,
    }
}

/// Calls `regex::Regex::is_match`. The contract claims that the answer is
/// `regex_is_match` of the regex's pattern and the haystack.
#[verifier::external_body]
pub fn regex_matches(re: &CompiledRegex, haystack: &str) -> (res: bool)
    ensures
        res == regex_is_match(re.pattern(), haystack@),
{
    re.inner.is_match(haystack)
}

/// Calls `regex::Regex::find_iter` and keeps the text of each match. The
/// contract claims that the texts are `regex_find_all` of the regex's pattern
/// and the haystack.
#[verifier::external_body]
pub fn regex_find_texts(re: &CompiledRegex, haystack: &str) -> (res: Vec<String>)
    ensures
        res@.map_values(|m: String| m@) == regex_find_all(re.pattern(), haystack@),
{
    let mut texts = Vec::new();
    for m in re.inner.find_iter(haystack) {
        texts.push(m.as_str().to_string());
    }
    texts
}

/// Calls `regex::escape`. The contract states its whole behaviour: a
/// backslash goes in front of each meta character.
#[verifier::external_body]
pub fn regex_escape(text: &str) -> (res: String)
    ensures
        res@ == regex_escaped(text@),
{
    regex::escape(text)
}

} // verus!
