//! Which lines of a buffer differ from the file on disk, by a line diff
//! (`similar`) of the file's content against the buffer's.

use vstd::prelude::*;
use std::collections::HashSet;
use similar::{ChangeTag, TextDiff};
use super::buffer::{Buffer, join_lines};

verus! {

/// What a line diff does with one line.
#[derive(Debug, Clone, Copy, PartialEq, Eq, Structural)]
pub enum LineChange {
    /// The line is in both texts.
    Equal,
    /// The line is only in the old text.
    Delete,
    /// The line is only in the new text.
    Insert,
}

/// The changes that `TextDiff::from_lines(old, new).iter_all_changes()`
/// yields, in order, by their tags.
pub uninterp spec fn line_diff(old: Seq<char>, new: Seq<char>) -> Seq<LineChange>;

/// `similar::TextDiff::from_lines(old, new)` with `iter_all_changes`: the
/// tag of each change of a line diff from `old` to `new`, in order. The
/// contract names the result; the diff algorithm is not restated.
#[verifier::external_body]
fn diff_changes(old: &str, new: &str) -> (r: Vec<LineChange>)
    ensures
        r@ == line_diff(old@, new@),
{
    let diff = TextDiff::from_lines(old, new);
    let mut r = Vec::new();
    for change in diff.iter_all_changes() {
        r.push(match change.tag() {
            ChangeTag::Equal => LineChange::Equal,
            ChangeTag::Delete => LineChange::Delete,
            ChangeTag::Insert => LineChange::Insert,
        });
    }
    r
}

/// How many lines of the new text `changes` cover (the equal and inserted ones).
pub open spec fn new_lines_covered(changes: Seq<LineChange>) -> nat
    decreases changes.len(),
{
    if changes.len() == 0 {
        0
    } else {
        new_lines_covered(changes.drop_last()) + if changes.last() == LineChange::Delete {
            0nat
        } else {
            1nat
        }
    }
}

/// The lines of the new text that `changes` insert, counted among the new
/// text's lines from 0.
pub open spec fn inserted_line_numbers(changes: Seq<LineChange>) -> Set<usize>
    decreases changes.len(),
{
    if changes.len() == 0 {
        Set::empty()
    } else {
        let s = inserted_line_numbers(changes.drop_last());
        if changes.last() == LineChange::Insert {
            s.insert(new_lines_covered(changes.drop_last()) as usize)
        } else {
            s
        }
    }
}

proof fn lemma_covered_bound(changes: Seq<LineChange>)
    ensures
        new_lines_covered(changes) <= changes.len(),
    decreases changes.len(),
{
    if changes.len() > 0 {
        lemma_covered_bound(changes.drop_last());
    }
}

/// The numbers of the lines that `changes` insert into the new text.
pub fn changed_lines(changes: &Vec<LineChange>) -> (r: HashSet<usize>)
    ensures
        r@ == inserted_line_numbers(changes@),
{
    let mut r: HashSet<usize> = HashSet::new();
    let mut line: usize = 0;
    let mut i: usize = 0;
    while i < changes.len()
        invariant
            i <= changes@.len(),
            line == new_lines_covered(changes@.take(i as int)),
            r@ == inserted_line_numbers(changes@.take(i as int)),
        decreases changes.len() - i,
    {
        assert(changes@.take(i + 1).drop_last() =~= changes@.take(i as int));
        proof {
            lemma_covered_bound(changes@.take(i as int));
        }
        match changes[i] {
            LineChange::Equal => {
                line += 1;
            },
            LineChange::Insert => {
                r.insert(line);
                line += 1;
            },
            LineChange::Delete => {},
        }
        i += 1;
    }
    assert(changes@.take(i as int) =~= changes@);
    r
}

impl Buffer {
    /// The lines of the buffer that differ from `disk_content`: the lines of
    /// a line diff from `disk_content` to the buffer's content (see
    /// [`Buffer::get_content`]) that the buffer inserts.
    pub fn diff_with_content(&self, disk_content: &str) -> (r: HashSet<usize>)
        ensures
            r@ == inserted_line_numbers(
                line_diff(disk_content@, join_lines(self.text())),
            ),
    {
        let content = self.get_content();
        let changes = diff_changes(disk_content, content.as_str());
        changed_lines(&changes)
    }
}

} // verus!
