//! The record of components that earlier runs completed, kept so that a
//! batch can resume where it stopped. The record is a text file with one
//! component id per line; reading and writing the file is left to the caller.

use vstd::prelude::*;
use crate::paths::{join, join_path};
use crate::text::{
    contains_text, push_char, str_chars, string_from_range, texts, trim, trim_range, split_on,
};

verus! {

/// The assets of a component that a completed conversion produced.
#[derive(Debug, Clone, Copy, PartialEq, Eq, Structural)]
pub struct CompletedAssets {
    pub symbol: bool,
    pub footprint: bool,
    pub model_3d: bool,
}

/// The checkpoint file of the output directory `output`.
pub open spec fn checkpoint_path_of(output: Seq<char>) -> Seq<char> {
    join_path(output, ".checkpoint"@)
}

/// The path of the checkpoint file in the output directory `output`.
pub fn checkpoint_path(output: &str) -> (res: String)
    ensures
        res@ == checkpoint_path_of(output@),
{
    join(output, ".checkpoint")
}

/// The ids named by some lines: each line trimmed, empty lines ignored.
pub open spec fn ids_of_lines(lines: Seq<Seq<char>>) -> Set<Seq<char>>
    decreases lines.len(),
{
    if lines.len() == 0 {
        Set::empty()
    } else {
        let rest = ids_of_lines(lines.drop_last());
        if trim(lines.last()).len() > 0 {
            rest.insert(trim(lines.last()))
        } else {
            rest
        }
    }
}

/// The ids named by some lines, each once, in the order of the line that
/// first names it.
pub open spec fn ids_in_order(lines: Seq<Seq<char>>) -> Seq<Seq<char>>
    decreases lines.len(),
{
    if lines.len() == 0 {
        Seq::<Seq<char>>::empty()
    } else {
        let rest = ids_in_order(lines.drop_last());
        let id = trim(lines.last());
        if id.len() > 0 && !rest.contains(id) {
            rest.push(id)
        } else {
            rest
        }
    }
}

/// The ids that a checkpoint file with text `content` records.
pub open spec fn checkpoint_ids(content: Seq<char>) -> Set<Seq<char>> {
    ids_of_lines(split_on(content, '\n'))
}

/// The text that records `ids`: each id on a line of its own.
pub open spec fn checkpoint_text(ids: Seq<Seq<char>>) -> Seq<char>
    decreases ids.len(),
{
    if ids.len() == 0 {
        Seq::<char>::empty()
    } else {
        checkpoint_text(ids.drop_last()) + ids.last().push('\n')
    }
}

/// The ids of `ids` that are neither in `known` nor earlier in `ids`, in order.
pub open spec fn fresh_ids(known: Set<Seq<char>>, ids: Seq<Seq<char>>) -> Seq<Seq<char>>
    decreases ids.len(),
{
    if ids.len() == 0 {
        Seq::<Seq<char>>::empty()
    } else {
        let earlier = fresh_ids(known, ids.drop_last());
        if known.contains(ids.last()) || ids.drop_last().contains(ids.last()) {
            earlier
        } else {
            earlier.push(ids.last())
        }
    }
}

/// An id that a checkpoint file records as it is: not empty, on one line,
/// and without white space at its ends.
pub open spec fn is_plain_id(id: Seq<char>) -> bool {
    id.len() > 0 && trim(id) == id && !id.contains('\n')
}

/// Reads the ids that a checkpoint file records, each once, in the order of
/// their first line.
pub fn parse_checkpoint(content: &str) -> (res: Vec<String>)
    ensures
        texts(res@).no_duplicates(),
        texts(res@).to_set() == checkpoint_ids(content@),
        texts(res@) == ids_in_order(split_on(content@, '\n')),
{
    let c = str_chars(content);
    let n = c.len();
    let mut ids: Vec<String> = Vec::new();
    let mut line_start: usize = 0;
    let ghost mut done: Seq<Seq<char>> = Seq::empty();
    assert(c@.take(0) =~= Seq::<char>::empty());
    assert(c@.subrange(0, 0) =~= Seq::<char>::empty());
    assert(split_on(c@.take(0), '\n') =~= done.push(c@.subrange(0, 0)));
    let mut i: usize = 0;
    while i < n
        invariant
            n == c@.len(),
            c@ == content@,
            line_start <= i <= n,
            split_on(c@.take(i as int), '\n') == done.push(c@.subrange(line_start as int, i as int)),
            texts(ids@).no_duplicates(),
            texts(ids@).to_set() == ids_of_lines(done),
            texts(ids@) == ids_in_order(done),
        decreases n - i,
    {
        assert(c@.take(i + 1).drop_last() =~= c@.take(i as int));
        if c[i] == '\n' {
            let (a, b) = trim_range(&c, line_start, i);
            if a < b {
                let line = string_from_range(&c, a, b);
                if !contains_text(&ids, &line) {
                    let ghost before = texts(ids@);
                    ids.push(line);
                    assert(texts(ids@) =~= before.push(line@));
                    proof {
                        crate::text::lemma_push_fresh(before, line@);
                    }
                }
            }
            proof {
                let line_text = c@.subrange(line_start as int, i as int);
                assert(done.push(line_text).drop_last() =~= done);
                done = done.push(line_text);
                assert(texts(ids@).to_set() =~= ids_of_lines(done));
                assert(texts(ids@) =~= ids_in_order(done));
                assert(c@.subrange(i + 1, i + 1) =~= Seq::<char>::empty());
            }
            line_start = i + 1;
        } else {
            assert(c@.subrange(line_start as int, i + 1) =~= c@.subrange(
                line_start as int,
                i as int,
            ).push(c@[i as int]));
            proof {
                crate::text::lemma_split_on_nonempty(c@.take(i as int), '\n');
            }
            assert(split_on(c@.take(i + 1), '\n') =~= done.push(
                c@.subrange(line_start as int, i + 1),
            ));
        }
        i = i + 1;
    }
    let ghost lines = split_on(c@, '\n');
    assert(c@.take(n as int) =~= c@);
    let (a, b) = trim_range(&c, line_start, n);
    if a < b {
        let line = string_from_range(&c, a, b);
        if !contains_text(&ids, &line) {
            let ghost before = texts(ids@);
            ids.push(line);
            assert(texts(ids@) =~= before.push(line@));
            proof {
                crate::text::lemma_push_fresh(before, line@);
            }
        }
    }
    proof {
        assert(lines.drop_last() =~= done);
        assert(texts(ids@).to_set() =~= ids_of_lines(lines));
        assert(lines =~= done.push(lines.last()));
        assert(texts(ids@) =~= ids_in_order(lines));
    }
    ids
}

/// The text that records `lcsc_ids` in a checkpoint file.
pub fn checkpoint_lines(lcsc_ids: &[String]) -> (res: String)
    ensures
        res@ == checkpoint_text(texts(lcsc_ids@)),
{
    let mut res = String::new();
    let n = lcsc_ids.len();
    for i in 0..n
        invariant
            n == lcsc_ids@.len(),
            res@ == checkpoint_text(texts(lcsc_ids@.take(i as int))),
    {
        res.append(lcsc_ids[i].as_str());
        push_char(&mut res, '\n');
        assert(texts(lcsc_ids@.take(i + 1)).drop_last() =~= texts(lcsc_ids@.take(i as int)));
    }
    assert(lcsc_ids@.take(n as int) =~= lcsc_ids@);
    res
}

/// The ids that runs have completed, and the file that records them.
pub struct CheckpointManager {
    path: String,
    completed_ids: Vec<String>,
}

impl CheckpointManager {
    #[verifier::type_invariant]
    spec fn each_id_once(self) -> bool {
        texts(self.completed_ids@).no_duplicates()
    }

    /// The completed ids.
    pub closed spec fn ids(self) -> Set<Seq<char>> {
        texts(self.completed_ids@).to_set()
    }

    /// The path of the checkpoint file.
    pub closed spec fn file_path(self) -> Seq<char> {
        self.path@
    }

    /// The checkpoint kept in the file at `path`, whose text is `content`
    /// (`None` where there is no such file yet).
    pub fn load(path: &str, content: Option<&str>) -> (res: Self)
        ensures
            res.file_path() == path@,
            res.ids() == match content {
                Some(c) => checkpoint_ids(c@),
                None => Set::<Seq<char>>::empty(),
            },
    {
        let completed_ids = match content {
            Some(c) => parse_checkpoint(c),
            None => {
                let v: Vec<String> = Vec::new();
                assert(texts(v@).to_set() =~= Set::<Seq<char>>::empty());
                v
            },
        };
        CheckpointManager { path: path.to_owned(), completed_ids }
    }

    /// The path of the checkpoint file.
    pub fn path(&self) -> (res: &str)
        ensures
            res@ == self.file_path(),
    {
        self.path.as_str()
    }

    /// The completed ids, each once.
    pub fn completed_ids(&self) -> (res: Vec<String>)
        ensures
            texts(res@).no_duplicates(),
            texts(res@).to_set() == self.ids(),
    {
        proof {
            use_type_invariant(self);
        }
        self.completed_ids.clone()
    }

    /// Whether `lcsc_id` is completed.
    pub fn is_completed(&self, lcsc_id: &String) -> (res: bool)
        ensures
            res == self.ids().contains(lcsc_id@),
    {
        let r = contains_text(&self.completed_ids, lcsc_id);
        proof {
            if r {
                assert(texts(self.completed_ids@).contains(lcsc_id@));
            } else {
                assert(!texts(self.completed_ids@).to_set().contains(lcsc_id@));
            }
        }
        r
    }

    /// Records `lcsc_ids` as completed. Returns the ids that were not
    /// completed before, each once and in the order given: the lines that the
    /// caller appends to the checkpoint file (as `checkpoint_lines` writes them).
    pub fn append_completed_ids(&mut self, lcsc_ids: &[String]) -> (res: Vec<String>)
        ensures
            final(self).file_path() == old(self).file_path(),
            final(self).ids() == old(self).ids() + texts(lcsc_ids@).to_set(),
            texts(res@) == fresh_ids(old(self).ids(), texts(lcsc_ids@)),
            texts(res@).no_duplicates(),
            forall|i: int| 0 <= i < res@.len() ==> !old(self).ids().contains(#[trigger] res@[i]@),
    {
        proof {
            use_type_invariant(&*self);
        }
        let ghost known = self.ids();
        let mut completed = self.completed_ids.clone();
        assert(texts(completed@) == texts(self.completed_ids@));
        let mut pending: Vec<String> = Vec::new();
        let n = lcsc_ids.len();
        for i in 0..n
            invariant
                n == lcsc_ids@.len(),
                known == old(self).ids(),
                texts(completed@).no_duplicates(),
                texts(completed@).to_set() == known + texts(lcsc_ids@.take(i as int)).to_set(),
                texts(pending@) == fresh_ids(known, texts(lcsc_ids@.take(i as int))),
        {
            let ghost prefix = texts(lcsc_ids@.take(i as int));
            let ghost next = texts(lcsc_ids@.take(i + 1));
            assert(next.drop_last() =~= prefix);
            assert(next.last() == lcsc_ids@[i as int]@);
            assert(prefix.to_set() + next.to_set() == next.to_set()) by {
                next.lemma_push_to_set_commute(next.last());
                assert(next =~= prefix.push(next.last()));
            }
            let id = &lcsc_ids[i];
            if !contains_text(&completed, id) {
                let ghost before = texts(completed@);
                completed.push(id.clone());
                assert(texts(completed@) =~= before.push(id@));
                proof {
                    crate::text::lemma_push_fresh(before, id@);
                }
                let ghost before_pending = texts(pending@);
                pending.push(id.clone());
                assert(texts(pending@) =~= before_pending.push(id@));
                assert(!known.contains(id@) && !prefix.contains(id@)) by {
                    assert(!before.to_set().contains(id@));
                    if prefix.contains(id@) {
                        assert(prefix.to_set().contains(id@));
                        assert((known + prefix.to_set()).contains(id@));
                    }
                    if known.contains(id@) {
                        assert((known + prefix.to_set()).contains(id@));
                    }
                }
            } else {
                assert(known.contains(id@) || prefix.contains(id@)) by {
                    assert(texts(completed@).to_set().contains(id@));
                    if !known.contains(id@) {
                        assert(prefix.to_set().contains(id@));
                    }
                }
            }
            assert(texts(completed@).to_set() =~= known + next.to_set()) by {
                next.lemma_push_to_set_commute(next.last());
                assert(next =~= prefix.push(next.last()));
            }
        }
        assert(lcsc_ids@.take(n as int) =~= lcsc_ids@);
        proof {
            lemma_fresh_ids_props(known, texts(lcsc_ids@));
            assert forall|i: int| 0 <= i < pending@.len() implies !known.contains(
                #[trigger] pending@[i]@,
            ) by {
                assert(texts(pending@)[i] == pending@[i]@);
            }
        }
        self.completed_ids = completed;
        pending
    }
}

/// The last line of a text is empty exactly when the text is empty or ends
/// with a newline.
proof fn lemma_last_line_empty(s: Seq<char>)
    ensures
        split_on(s, '\n').len() >= 1,
        (s.len() == 0 || s.last() == '\n') ==> split_on(s, '\n').last().len() == 0,
{
    crate::text::lemma_split_on_nonempty(s, '\n');
    if s.len() > 0 {
        crate::text::lemma_split_on_nonempty(s.drop_last(), '\n');
    }
}

/// Text without a newline extends the last line.
proof fn lemma_split_extend_last(s: Seq<char>, a: Seq<char>)
    requires
        split_on(s, '\n').len() >= 1,
        split_on(s, '\n').last().len() == 0,
        !a.contains('\n'),
    ensures
        split_on(s + a, '\n') == split_on(s, '\n').drop_last().push(a),
    decreases a.len(),
{
    let lines = split_on(s, '\n');
    if a.len() == 0 {
        assert(s + a =~= s);
        assert(a =~= lines.last());
        assert(lines.drop_last().push(a) =~= lines);
    } else {
        let a0 = a.drop_last();
        let c = a.last();
        assert(!a0.contains('\n')) by {
            if a0.contains('\n') {
                let k = choose|k: int| 0 <= k < a0.len() && a0[k] == '\n';
                assert(a[k] == '\n');
            }
        }
        assert(a.contains(c));
        lemma_split_extend_last(s, a0);
        assert((s + a).drop_last() =~= s + a0);
        assert((s + a).last() == c);
        crate::text::lemma_split_on_nonempty(s + a0, '\n');
        assert(split_on(s + a, '\n') =~= lines.drop_last().push(a)) by {
            assert(a0.push(c) =~= a);
        }
    }
}

/// Reading the lines of a text with one more line: the ids grow by that line's id.
proof fn lemma_ids_after_appended_line(s: Seq<char>, a: Seq<char>)
    requires
        s.len() == 0 || s.last() == '\n',
        is_plain_id(a),
    ensures
        checkpoint_ids(s + a.push('\n')) == checkpoint_ids(s).insert(a),
{
    lemma_last_line_empty(s);
    let lines = split_on(s, '\n');
    lemma_split_extend_last(s, a);
    assert(s + a.push('\n') =~= (s + a).push('\n'));
    assert((s + a).push('\n').drop_last() =~= s + a);
    let grown = lines.drop_last().push(a).push(Seq::<char>::empty());
    assert(split_on(s + a.push('\n'), '\n') == grown);
    assert(trim(Seq::<char>::empty()) == Seq::<char>::empty());
    assert(grown.drop_last() =~= lines.drop_last().push(a));
    assert(grown.drop_last().drop_last() =~= lines.drop_last());
    assert(lines.drop_last().push(lines.last()) =~= lines);
    assert(ids_of_lines(lines) == ids_of_lines(lines.drop_last())) by {
        assert(lines =~= lines.drop_last().push(lines.last()));
        assert(lines.last() =~= Seq::<char>::empty());
    }
    assert(ids_of_lines(grown) == ids_of_lines(grown.drop_last()));
    assert(ids_of_lines(grown.drop_last()) == ids_of_lines(lines.drop_last()).insert(a));
}

/// Appending the text of plain ids to a checkpoint text that ends a line
/// adds exactly those ids.
pub proof fn lemma_checkpoint_text_adds_ids(old_content: Seq<char>, ids: Seq<Seq<char>>)
    requires
        old_content.len() == 0 || old_content.last() == '\n',
        forall|i: int| 0 <= i < ids.len() ==> is_plain_id(#[trigger] ids[i]),
    ensures
        checkpoint_ids(old_content + checkpoint_text(ids)) == checkpoint_ids(old_content)
            + ids.to_set(),
        old_content + checkpoint_text(ids) == Seq::<char>::empty() || (old_content
            + checkpoint_text(ids)).last() == '\n',
    decreases ids.len(),
{
    if ids.len() == 0 {
        assert(old_content + checkpoint_text(ids) =~= old_content);
        assert(ids.to_set() =~= Set::<Seq<char>>::empty());
        assert(checkpoint_ids(old_content) + ids.to_set() =~= checkpoint_ids(old_content));
        if old_content.len() == 0 {
            assert(old_content =~= Seq::<char>::empty());
        }
    } else {
        let rest = ids.drop_last();
        let a = ids.last();
        assert forall|i: int| 0 <= i < rest.len() implies is_plain_id(#[trigger] rest[i]) by {
            assert(rest[i] == ids[i]);
        }
        lemma_checkpoint_text_adds_ids(old_content, rest);
        let s = old_content + checkpoint_text(rest);
        assert(is_plain_id(ids[ids.len() - 1]));
        assert(s.len() == 0 || s.last() == '\n') by {
            if s.len() != 0 {
                assert(s != Seq::<char>::empty());
            }
        }
        lemma_ids_after_appended_line(s, a);
        assert(old_content + checkpoint_text(ids) =~= s + a.push('\n'));
        assert(ids =~= rest.push(a));
        rest.lemma_push_to_set_commute(a);
        assert(checkpoint_ids(old_content) + ids.to_set() =~= (checkpoint_ids(old_content)
            + rest.to_set()).insert(a));
    }
}

/// Resuming sees every completed id: when a manager loaded from a checkpoint
/// text that ends a line records plain ids, that text followed by the lines
/// of the ids it returns reads back as exactly the ids the manager then holds.
pub proof fn lemma_checkpoint_reads_back(old_content: Seq<char>, ids: Seq<Seq<char>>)
    requires
        old_content.len() == 0 || old_content.last() == '\n',
        forall|i: int| 0 <= i < ids.len() ==> is_plain_id(#[trigger] ids[i]),
    ensures
        checkpoint_ids(
            old_content + checkpoint_text(fresh_ids(checkpoint_ids(old_content), ids)),
        ) == checkpoint_ids(old_content) + ids.to_set(),
{
    let known = checkpoint_ids(old_content);
    let fresh = fresh_ids(known, ids);
    lemma_fresh_ids_props(known, ids);
    assert forall|i: int| 0 <= i < fresh.len() implies is_plain_id(#[trigger] fresh[i]) by {
        assert(ids.contains(fresh[i]));
        let k = choose|k: int| 0 <= k < ids.len() && ids[k] == fresh[i];
        assert(is_plain_id(ids[k]));
    }
    lemma_checkpoint_text_adds_ids(old_content, fresh);
}

/// The fresh ids of `ids` are ids of `ids` outside `known`, each once, and
/// together with `known` they make up every id.
pub proof fn lemma_fresh_ids_props(known: Set<Seq<char>>, ids: Seq<Seq<char>>)
    ensures
        fresh_ids(known, ids).no_duplicates(),
        forall|i: int|
            0 <= i < fresh_ids(known, ids).len() ==> !known.contains(#[trigger] fresh_ids(known, ids)[i])
                && ids.contains(fresh_ids(known, ids)[i]),
        known + fresh_ids(known, ids).to_set() == known + ids.to_set(),
    decreases ids.len(),
{
    if ids.len() > 0 {
        let rest = ids.drop_last();
        let x = ids.last();
        lemma_fresh_ids_props(known, rest);
        let earlier = fresh_ids(known, rest);
        assert(ids =~= rest.push(x));
        rest.lemma_push_to_set_commute(x);
        if !(known.contains(x) || rest.contains(x)) {
            assert(!earlier.contains(x)) by {
                if earlier.contains(x) {
                    let k = choose|k: int| 0 <= k < earlier.len() && earlier[k] == x;
                    assert(rest.contains(earlier[k]));
                }
            }
            crate::text::lemma_push_fresh(earlier, x);
            assert forall|i: int| 0 <= i < earlier.push(x).len() implies !known.contains(
                #[trigger] earlier.push(x)[i],
            ) && ids.contains(earlier.push(x)[i]) by {
                if i < earlier.len() {
                    assert(earlier.push(x)[i] == earlier[i]);
                    assert(rest.contains(earlier[i]));
                    let k = choose|k: int| 0 <= k < rest.len() && rest[k] == earlier[i];
                    assert(ids[k] == rest[k]);
                } else {
                    assert(ids[ids.len() - 1] == x);
                }
            }
            assert(ids.to_set() == rest.to_set().insert(x));
            assert(known + earlier.push(x).to_set() =~= known + ids.to_set()) by {
                assert(known + earlier.to_set() == known + rest.to_set());
                assert forall|y: Seq<char>| (known + earlier.push(x).to_set()).contains(y) <==> (known + ids.to_set()).contains(y) by {
                    assert((known + earlier.to_set()).contains(y) == (known + rest.to_set()).contains(y));
                }
            }
        } else {
            assert forall|i: int| 0 <= i < earlier.len() implies ids.contains(#[trigger] earlier[i]) by {
                assert(rest.contains(earlier[i]));
                let k = choose|k: int| 0 <= k < rest.len() && rest[k] == earlier[i];
                assert(ids[k] == rest[k]);
            }
            if rest.contains(x) {
                assert(rest.to_set().contains(x));
            }
            assert(known + earlier.to_set() =~= known + ids.to_set());
        }
    } else {
        assert(fresh_ids(known, ids).to_set() =~= Set::<Seq<char>>::empty());
        assert(ids.to_set() =~= Set::<Seq<char>>::empty());
    }
}

} // verus!
