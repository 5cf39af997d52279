//! Line diff between two schema texts. JSON texts are compared in a
//! canonical pretty-printed form, so that formatting alone makes no difference.

use vstd::prelude::*;
use crate::json::{canonical_json, canonical_json_of};
use crate::text::{chars_eq, chars_of, str_eq, string_of};

verus! {

/// What a diff operation does with its line.
#[derive(Debug, Clone, Copy, PartialEq, Eq, Structural)]
pub enum ChangeTag {
    /// The line is in both texts.
    Equal,
    /// The line is only in the old text.
    Delete,
    /// The line is only in the new text.
    Insert,
}

/// One line of a diff, with its position in the old and in the new text.
pub struct DiffOp {
    pub tag: ChangeTag,
    pub text: String,
    pub old_index: Option<usize>,
    pub new_index: Option<usize>,
}

/// The result of comparing two texts.
pub enum DiffResult {
    /// The texts compare equal.
    NoDifferences,
    /// The line operations that turn the old text into the new one.
    Changes(Vec<DiffOp>),
}

/// The characters of each line.
pub open spec fn lines_view(lines: Seq<Vec<char>>) -> Seq<Seq<char>> {
    lines.map_values(|l: Vec<char>| l@)
}

/// Lines joined with `'\n'` between them.
pub open spec fn join_lines(lines: Seq<Seq<char>>) -> Seq<char>
    decreases lines.len(),
{
    if lines.len() == 0 {
        Seq::empty()
    } else if lines.len() == 1 {
        lines[0]
    } else {
        join_lines(lines.drop_last()) + seq!['\n'] + lines.last()
    }
}

/// No line holds a `'\n'`.
pub open spec fn single_lines(lines: Seq<Seq<char>>) -> bool {
    forall|i: int, k: int| 0 <= i < lines.len() && 0 <= k < lines[i].len() ==> lines[i][k] != '\n'
}

/// The lines of the old text that the operations go through.
pub open spec fn old_side(ops: Seq<DiffOp>) -> Seq<Seq<char>>
    decreases ops.len(),
{
    if ops.len() == 0 {
        Seq::empty()
    } else if ops.last().tag is Insert {
        old_side(ops.drop_last())
    } else {
        old_side(ops.drop_last()).push(ops.last().text@)
    }
}

/// The lines of the new text that the operations go through.
pub open spec fn new_side(ops: Seq<DiffOp>) -> Seq<Seq<char>>
    decreases ops.len(),
{
    if ops.len() == 0 {
        Seq::empty()
    } else if ops.last().tag is Delete {
        new_side(ops.drop_last())
    } else {
        new_side(ops.drop_last()).push(ops.last().text@)
    }
}

/// Each operation carries the position of its line in the old text (unless an
/// insertion) and in the new text (unless a deletion).
pub open spec fn well_indexed(ops: Seq<DiffOp>) -> bool
    decreases ops.len(),
{
    if ops.len() == 0 {
        true
    } else {
        let init = ops.drop_last();
        let op = ops.last();
        &&& well_indexed(init)
        &&& op.old_index == if op.tag is Insert {
            None
        } else {
            Some(old_side(init).len() as usize)
        }
        &&& op.new_index == if op.tag is Delete {
            None
        } else {
            Some(new_side(init).len() as usize)
        }
    }
}

/// The operations go through exactly the lines of the old and of the new text.
pub open spec fn reconstructs(ops: Seq<DiffOp>, old: Seq<char>, new: Seq<char>) -> bool {
    &&& join_lines(old_side(ops)) == old
    &&& join_lines(new_side(ops)) == new
    &&& single_lines(old_side(ops))
    &&& single_lines(new_side(ops))
    &&& well_indexed(ops)
}

/// What a result says of two texts: no differences exactly when they are
/// equal, and otherwise operations that go through both, not all of them equal lines.
pub open spec fn describes(r: DiffResult, old: Seq<char>, new: Seq<char>) -> bool {
    match r {
        DiffResult::NoDifferences => old == new,
        DiffResult::Changes(ops) => old != new && reconstructs(ops@, old, new) && exists|k: int|
            0 <= k < ops@.len() && !(ops@[k].tag is Equal),
    }
}

proof fn lemma_join_push(lines: Seq<Seq<char>>, c: char)
    requires
        lines.len() > 0,
    ensures
        join_lines(lines.drop_last().push(lines.last().push(c))) == join_lines(lines).push(c),
{
    let extended = lines.drop_last().push(lines.last().push(c));
    assert(extended.drop_last() == lines.drop_last());
    if lines.len() == 1 {
        assert(extended[0] == lines[0].push(c));
    } else {
        assert((join_lines(lines.drop_last()) + seq!['\n'] + lines.last()).push(c)
            == join_lines(lines.drop_last()) + seq!['\n'] + lines.last().push(c));
    }
}

/// Splits text into its lines at each `'\n'`; text without one is a single line.
pub fn split_lines(s: &Vec<char>) -> (r: Vec<Vec<char>>)
    ensures
        r@.len() > 0,
        join_lines(lines_view(r@)) == s@,
        single_lines(lines_view(r@)),
{
    let mut lines: Vec<Vec<char>> = Vec::new();
    let mut current: Vec<char> = Vec::new();
    let mut i: usize = 0;
    while i < s.len()
        invariant
            i <= s@.len(),
            join_lines(lines_view(lines@).push(current@)) == s@.subrange(0, i as int),
            single_lines(lines_view(lines@).push(current@)),
        decreases s@.len() - i,
    {
        let c = s[i];
        let ghost before = lines_view(lines@).push(current@);
        if c == '\n' {
            lines.push(current);
            current = Vec::new();
            let ghost after = lines_view(lines@).push(current@);
            assert(lines_view(lines@) =~= before);
            assert(after.drop_last() == before);
            assert(after.last() == Seq::<char>::empty());
            assert(join_lines(after) == join_lines(before) + seq!['\n'] + Seq::<char>::empty());
        } else {
            current.push(c);
            let ghost after = lines_view(lines@).push(current@);
            assert(before.drop_last() =~= lines_view(lines@));
            proof { lemma_join_push(before, c); }
            assert(after == before.drop_last().push(before.last().push(c)));
        }
        assert(s@.subrange(0, i + 1) == s@.subrange(0, i as int).push(c));
        i = i + 1;
    }
    let ghost last_view = lines_view(lines@).push(current@);
    lines.push(current);
    assert(lines_view(lines@) =~= last_view);
    assert(s@.subrange(0, s@.len() as int) == s@);
    lines
}

fn zeros(m: usize) -> (r: Vec<usize>)
    ensures
        r@.len() == m + 1,
        forall|t: int| 0 <= t < r@.len() ==> r@[t] == 0,
{
    let mut r: Vec<usize> = Vec::new();
    r.push(0);
    let mut c: usize = 0;
    while c < m
        invariant
            c <= m,
            r@.len() == c + 1,
            forall|t: int| 0 <= t < r@.len() ==> r@[t] == 0,
        decreases m - c,
    {
        r.push(0);
        c = c + 1;
    }
    r
}

/// A table that steers the diff toward keeping equal lines: `rows[k][j]` is
/// filled by the common-subsequence recurrence for the old lines from `n - k`
/// on and the new lines from `j` on. Only its shape and bounds are relied on.
fn lcs_rows(old: &Vec<Vec<char>>, new: &Vec<Vec<char>>) -> (rows: Vec<Vec<usize>>)
    ensures
        rows@.len() == old@.len() + 1,
        forall|k: int| 0 <= k < rows@.len() ==> rows@[k]@.len() == new@.len() + 1,
        forall|k: int, j: int| 0 <= k < rows@.len() && 0 <= j < rows@[k]@.len() ==> rows@[k]@[j] <= k,
{
    let n = old.len();
    let m = new.len();
    let mut rows: Vec<Vec<usize>> = Vec::new();
    rows.push(zeros(m));
    let mut done: usize = 0;
    while done < n
        invariant
            done <= n,
            n == old@.len(),
            m == new@.len(),
            rows@.len() == done + 1,
            forall|r: int| 0 <= r < rows@.len() ==> rows@[r]@.len() == m + 1,
            forall|r: int, c: int| 0 <= r < rows@.len() && 0 <= c < rows@[r]@.len() ==> rows@[r]@[c] <= r,
        decreases n - done,
    {
        let k = done + 1;
        let i = n - k;
        let next = &rows[done];
        let mut cur = zeros(m);
        let mut j: usize = m;
        while j > 0
            invariant
                j <= m,
                i < n,
                n == old@.len(),
                m == new@.len(),
                cur@.len() == m + 1,
                next@.len() == m + 1,
                forall|t: int| 0 <= t < next@.len() ==> next@[t] <= k - 1,
                forall|t: int| 0 <= t < cur@.len() ==> cur@[t] <= k,
            decreases j,
        {
            let col = j - 1;
            let value = if chars_eq(&old[i], &new[col]) {
                next[col + 1] + 1
            } else if next[col] >= cur[col + 1] {
                next[col]
            } else {
                cur[col + 1]
            };
            cur.set(col, value);
            j = col;
        }
        rows.push(cur);
        done = done + 1;
    }
    rows
}

/// The line operations that turn `old` into `new`: equal lines are kept where
/// the lines at hand match, and the table decides between deleting and inserting
/// otherwise. The contract states that the operations go through both texts, not
/// that they are the fewest possible.
pub fn diff_lines(old: &Vec<Vec<char>>, new: &Vec<Vec<char>>) -> (r: Vec<DiffOp>)
    ensures
        old_side(r@) == lines_view(old@),
        new_side(r@) == lines_view(new@),
        well_indexed(r@),
{
    let n = old.len();
    let m = new.len();
    let rows = lcs_rows(old, new);
    let mut ops: Vec<DiffOp> = Vec::new();
    let mut i: usize = 0;
    let mut j: usize = 0;
    while i < n || j < m
        invariant
            i <= n == old@.len(),
            j <= m == new@.len(),
            rows@.len() == n + 1,
            forall|k: int| 0 <= k < rows@.len() ==> rows@[k]@.len() == m + 1,
            old_side(ops@) == lines_view(old@).subrange(0, i as int),
            new_side(ops@) == lines_view(new@).subrange(0, j as int),
            well_indexed(ops@),
        decreases (n - i) + (m - j),
    {
        let ghost before = ops@;
        let tag = if i == n {
            ChangeTag::Insert
        } else if j == m {
            ChangeTag::Delete
        } else if chars_eq(&old[i], &new[j]) {
            ChangeTag::Equal
        } else if rows[n - i - 1][j] >= rows[n - i][j + 1] {
            ChangeTag::Delete
        } else {
            ChangeTag::Insert
        };
        let text = if tag == ChangeTag::Insert {
            string_of(&new[j])
        } else {
            string_of(&old[i])
        };
        let old_index = if tag == ChangeTag::Insert { None } else { Some(i) };
        let new_index = if tag == ChangeTag::Delete { None } else { Some(j) };
        ops.push(DiffOp { tag, text, old_index, new_index });
        assert(ops@.drop_last() == before);
        if tag != ChangeTag::Insert {
            assert(lines_view(old@).subrange(0, i + 1) =~= lines_view(old@).subrange(0, i as int).push(old@[i as int]@));
            i = i + 1;
        }
        if tag != ChangeTag::Delete {
            assert(lines_view(new@).subrange(0, j + 1) =~= lines_view(new@).subrange(0, j as int).push(new@[j as int]@));
            j = j + 1;
        }
    }
    assert(lines_view(old@).subrange(0, n as int) == lines_view(old@));
    assert(lines_view(new@).subrange(0, m as int) == lines_view(new@));
    ops
}

proof fn lemma_all_equal_sides(ops: Seq<DiffOp>)
    requires
        forall|k: int| 0 <= k < ops.len() ==> ops[k].tag is Equal,
    ensures
        old_side(ops) == new_side(ops),
    decreases ops.len(),
{
    if ops.len() > 0 {
        lemma_all_equal_sides(ops.drop_last());
    }
}

/// Compares two texts line by line.
pub fn diff_texts(old: &str, new: &str) -> (r: DiffResult)
    ensures
        describes(r, old@, new@),
{
    let a = chars_of(old);
    let b = chars_of(new);
    if chars_eq(&a, &b) {
        return DiffResult::NoDifferences;
    }
    let old_lines = split_lines(&a);
    let new_lines = split_lines(&b);
    let ops = diff_lines(&old_lines, &new_lines);
    proof {
        if forall|k: int| 0 <= k < ops@.len() ==> ops@[k].tag is Equal {
            lemma_all_equal_sides(ops@);
        }
    }
    DiffResult::Changes(ops)
}

/// What comparing a local schema text with a registered one gives: no
/// differences for equal texts; for two JSON documents, what a line comparison
/// of their canonical forms gives; otherwise what a line comparison of the
/// texts themselves gives.
pub open spec fn schema_diff(local: Seq<char>, remote: Seq<char>, r: DiffResult) -> bool {
    if local == remote {
        r is NoDifferences
    } else {
        match (canonical_json_of(local), canonical_json_of(remote)) {
            (Some(a), Some(b)) => describes(r, a, b),
            _ => describes(r, local, remote),
        }
    }
}

/// Compares a local schema text with a registered one. Equal texts have no
/// differences. When both are JSON documents they are compared in canonical
/// pretty-printed form; otherwise line by line as they are.
pub fn diff(local: &str, remote: &str) -> (r: DiffResult)
    ensures
        schema_diff(local@, remote@, r),
{
    if str_eq(local, remote) {
        return DiffResult::NoDifferences;
    }
    match (canonical_json(local), canonical_json(remote)) {
        (Some(a), Some(b)) => diff_texts(a.as_str(), b.as_str()),
        _ => diff_texts(local, remote),
    }
}

/// Two JSON documents with the same canonical form, such as a schema file and
/// the registry's re-formatted copy of it, have no differences.
pub proof fn lemma_same_canonical_form_has_no_differences(local: Seq<char>, remote: Seq<char>, r: DiffResult)
    requires
        canonical_json_of(local) is Some,
        canonical_json_of(local) == canonical_json_of(remote),
        schema_diff(local, remote, r),
    ensures
        r is NoDifferences,
{
}

/// Diffing a text with itself finds no differences, whether or not it is JSON.
pub proof fn lemma_diff_with_itself(x: Seq<char>, r: DiffResult)
    requires
        schema_diff(x, x, r),
    ensures
        r is NoDifferences,
{
}

/// The shown form of one operation: a marker (`-` deleted, `+` inserted, a
/// space for an equal line), a space, the line and a line break.
pub open spec fn shown_op(op: DiffOp) -> Seq<char> {
    let marker = match op.tag {
        ChangeTag::Equal => ' ',
        ChangeTag::Delete => '-',
        ChangeTag::Insert => '+',
    };
    seq![marker, ' '] + op.text@ + seq!['\n']
}

/// The shown form of operations, one line each.
pub open spec fn shown_ops(ops: Seq<DiffOp>) -> Seq<char>
    decreases ops.len(),
{
    if ops.len() == 0 {
        Seq::empty()
    } else {
        shown_ops(ops.drop_last()) + shown_op(ops.last())
    }
}

/// The message shown when two texts do not differ.
pub open spec fn no_differences_text() -> Seq<char> {
    "No differences found."@
}

impl DiffResult {
    /// The result as shown to the user: each line with its marker, or a
    /// message saying that there are no differences.
    pub fn render(&self) -> (r: String)
        ensures
            r@ == match self {
                DiffResult::NoDifferences => no_differences_text(),
                DiffResult::Changes(ops) => shown_ops(ops@),
            },
    {
        match self {
            DiffResult::NoDifferences => "No differences found.".to_owned(),
            DiffResult::Changes(ops) => {
                let mut out: Vec<char> = Vec::new();
                let mut i: usize = 0;
                while i < ops.len()
                    invariant
                        i <= ops@.len(),
                        out@ == shown_ops(ops@.subrange(0, i as int)),
                    decreases ops@.len() - i,
                {
                    let op = &ops[i];
                    let marker = match op.tag {
                        ChangeTag::Equal => ' ',
                        ChangeTag::Delete => '-',
                        ChangeTag::Insert => '+',
                    };
                    let ghost before = out@;
                    out.push(marker);
                    out.push(' ');
                    crate::text::push_chars(&mut out, &chars_of(op.text.as_str()));
                    out.push('\n');
                    assert(ops@.subrange(0, i + 1).drop_last() == ops@.subrange(0, i as int));
                    assert(out@ =~= before + shown_op(ops@[i as int]));
                    i = i + 1;
                }
                assert(ops@.subrange(0, ops@.len() as int) == ops@);
                string_of(&out)
            },
        }
    }
}

} // verus!
