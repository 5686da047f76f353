//! Side-by-side diff view: the rows of the two panes for a line diff, and
//! the colors they are drawn in.

use vstd::prelude::*;
use crate::color::Rgba;

verus! {

/// One step of a line diff.
pub enum DiffOp {
    /// A line both sides have.
    Equal(String),
    /// A line only the left side has.
    Delete(String),
    /// A line only the right side has.
    Insert(String),
}

/// Whether a background is dark (its red component below half).
pub open spec fn is_dark(background: Rgba) -> bool {
    background.r < 128
}

/// Background color for inserted lines (green tint).
pub fn insert_bg(background: Rgba) -> (r: Rgba)
    ensures
        r == if is_dark(background) {
            Rgba { r: 40, g: 80, b: 40, a: 60 }
        } else {
            Rgba { r: 180, g: 255, b: 180, a: 80 }
        },
{
    if background.r < 128 {
        Rgba { r: 40, g: 80, b: 40, a: 60 }
    } else {
        Rgba { r: 180, g: 255, b: 180, a: 80 }
    }
}

/// Background color for deleted lines (red tint).
pub fn delete_bg(background: Rgba) -> (r: Rgba)
    ensures
        r == if is_dark(background) {
            Rgba { r: 80, g: 40, b: 40, a: 60 }
        } else {
            Rgba { r: 255, g: 200, b: 200, a: 80 }
        },
{
    if background.r < 128 {
        Rgba { r: 80, g: 40, b: 40, a: 60 }
    } else {
        Rgba { r: 255, g: 200, b: 200, a: 80 }
    }
}

/// Text color for inserted lines.
pub fn insert_fg(background: Rgba) -> (r: Rgba)
    ensures
        r == if is_dark(background) {
            Rgba { r: 130, g: 220, b: 130, a: 255 }
        } else {
            Rgba { r: 0, g: 100, b: 0, a: 255 }
        },
{
    if background.r < 128 {
        Rgba::from_rgb(130, 220, 130)
    } else {
        Rgba::from_rgb(0, 100, 0)
    }
}

/// Text color for deleted lines.
pub fn delete_fg(background: Rgba) -> (r: Rgba)
    ensures
        r == if is_dark(background) {
            Rgba { r: 220, g: 130, b: 130, a: 255 }
        } else {
            Rgba { r: 150, g: 0, b: 0, a: 255 }
        },
{
    if background.r < 128 {
        Rgba::from_rgb(220, 130, 130)
    } else {
        Rgba::from_rgb(150, 0, 0)
    }
}

/// A row in the diff view for one pane.
pub struct DiffRow {
    /// Line number to display (1-based), or None for blank filler rows.
    pub line_number: Option<usize>,
    /// Text content of the line.
    pub text: String,
    /// Background color for the row.
    pub bg: Rgba,
    /// Foreground (text) color for the row.
    pub fg: Rgba,
}

/// A row as (line number, text, background, foreground).
pub open spec fn row_view(r: DiffRow) -> (Option<usize>, Seq<char>, Rgba, Rgba) {
    (r.line_number, r.text@, r.bg, r.fg)
}

/// The rows' views.
pub open spec fn rows_view(v: Seq<DiffRow>) -> Seq<(Option<usize>, Seq<char>, Rgba, Rgba)> {
    v.map_values(|r: DiffRow| row_view(r))
}

/// The number of operations among `ops` that show a line on the left.
pub open spec fn left_lines(ops: Seq<DiffOp>) -> nat
    decreases ops.len(),
{
    if ops.len() == 0 {
        0
    } else {
        left_lines(ops.drop_last()) + if ops.last() is Insert {
            0nat
        } else {
            1
        }
    }
}

/// The number of operations among `ops` that show a line on the right.
pub open spec fn right_lines(ops: Seq<DiffOp>) -> nat
    decreases ops.len(),
{
    if ops.len() == 0 {
        0
    } else {
        right_lines(ops.drop_last()) + if ops.last() is Delete {
            0nat
        } else {
            1
        }
    }
}

/// The left row of operation `k`: its line numbered and colored, or a blank
/// filler in the insert background across from an inserted line.
pub open spec fn left_row(ops: Seq<DiffOp>, k: int, bg: Rgba, fg: Rgba) -> (Option<usize>, Seq<char>, Rgba, Rgba) {
    let n = (left_lines(ops.take(k)) + 1) as usize;
    match ops[k] {
        DiffOp::Equal(t) => (Some(n), t@, Rgba { r: 0, g: 0, b: 0, a: 0 }, fg),
        DiffOp::Delete(t) => (
            Some(n),
            t@,
            if is_dark(bg) {
                Rgba { r: 80, g: 40, b: 40, a: 60 }
            } else {
                Rgba { r: 255, g: 200, b: 200, a: 80 }
            },
            if is_dark(bg) {
                Rgba { r: 220, g: 130, b: 130, a: 255 }
            } else {
                Rgba { r: 150, g: 0, b: 0, a: 255 }
            },
        ),
        DiffOp::Insert(_) => (
            None,
            Seq::empty(),
            if is_dark(bg) {
                Rgba { r: 40, g: 80, b: 40, a: 60 }
            } else {
                Rgba { r: 180, g: 255, b: 180, a: 80 }
            },
            fg,
        ),
    }
}

/// The right row of operation `k`: its line numbered and colored, or a blank
/// filler in the delete background across from a deleted line.
pub open spec fn right_row(ops: Seq<DiffOp>, k: int, bg: Rgba, fg: Rgba) -> (Option<usize>, Seq<char>, Rgba, Rgba) {
    let n = (right_lines(ops.take(k)) + 1) as usize;
    match ops[k] {
        DiffOp::Equal(t) => (Some(n), t@, Rgba { r: 0, g: 0, b: 0, a: 0 }, fg),
        DiffOp::Delete(_) => (
            None,
            Seq::empty(),
            if is_dark(bg) {
                Rgba { r: 80, g: 40, b: 40, a: 60 }
            } else {
                Rgba { r: 255, g: 200, b: 200, a: 80 }
            },
            fg,
        ),
        DiffOp::Insert(t) => (
            Some(n),
            t@,
            if is_dark(bg) {
                Rgba { r: 40, g: 80, b: 40, a: 60 }
            } else {
                Rgba { r: 180, g: 255, b: 180, a: 80 }
            },
            if is_dark(bg) {
                Rgba { r: 130, g: 220, b: 130, a: 255 }
            } else {
                Rgba { r: 0, g: 100, b: 0, a: 255 }
            },
        ),
    }
}

proof fn lemma_lines_bound(ops: Seq<DiffOp>)
    ensures
        left_lines(ops) <= ops.len(),
        right_lines(ops) <= ops.len(),
    decreases ops.len(),
{
    if ops.len() > 0 {
        lemma_lines_bound(ops.drop_last());
    }
}

/// Build left and right pane rows from diff ops, for a theme with the given
/// background and foreground colors: one row per operation on each side, so
/// the panes stay aligned.
pub fn build_rows(ops: &[DiffOp], background: Rgba, foreground: Rgba) -> (r: (Vec<DiffRow>, Vec<DiffRow>))
    ensures
        r.0@.len() == ops@.len(),
        r.1@.len() == ops@.len(),
        forall|k: int| 0 <= k < ops@.len() ==> row_view(#[trigger] r.0@[k]) == left_row(ops@, k, background, foreground),
        forall|k: int| 0 <= k < ops@.len() ==> row_view(#[trigger] r.1@[k]) == right_row(ops@, k, background, foreground),
{
    let mut left_rows: Vec<DiffRow> = Vec::new();
    let mut right_rows: Vec<DiffRow> = Vec::new();
    let mut left_line: usize = 0;
    let mut right_line: usize = 0;
    let normal_bg = Rgba::transparent();
    let normal_fg = foreground;
    let n = ops.len();
    for i in 0..n
        invariant
            n == ops@.len(),
            normal_bg == (Rgba { r: 0, g: 0, b: 0, a: 0 }),
            normal_fg == foreground,
            left_line == left_lines(ops@.take(i as int)),
            right_line == right_lines(ops@.take(i as int)),
            left_rows@.len() == i,
            right_rows@.len() == i,
            forall|k: int| 0 <= k < i ==> row_view(#[trigger] left_rows@[k]) == left_row(ops@, k, background, foreground),
            forall|k: int| 0 <= k < i ==> row_view(#[trigger] right_rows@[k]) == right_row(ops@, k, background, foreground),
    {
        proof {
            assert(ops@.take(i + 1).drop_last() =~= ops@.take(i as int));
            lemma_lines_bound(ops@.take(i as int));
        }
        match &ops[i] {
            DiffOp::Equal(text) => {
                left_line += 1;
                right_line += 1;
                left_rows.push(DiffRow { line_number: Some(left_line), text: text.clone(), bg: normal_bg, fg: normal_fg });
                right_rows.push(DiffRow { line_number: Some(right_line), text: text.clone(), bg: normal_bg, fg: normal_fg });
            },
            DiffOp::Delete(text) => {
                left_line += 1;
                left_rows.push(DiffRow {
                    line_number: Some(left_line),
                    text: text.clone(),
                    bg: delete_bg(background),
                    fg: delete_fg(background),
                });
                right_rows.push(DiffRow { line_number: None, text: String::new(), bg: delete_bg(background), fg: normal_fg });
            },
            DiffOp::Insert(text) => {
                right_line += 1;
                left_rows.push(DiffRow { line_number: None, text: String::new(), bg: insert_bg(background), fg: normal_fg });
                right_rows.push(DiffRow {
                    line_number: Some(right_line),
                    text: text.clone(),
                    bg: insert_bg(background),
                    fg: insert_fg(background),
                });
            },
        }
    }
    (left_rows, right_rows)
}

/// What a string hashes to with a fresh `DefaultHasher`: every hasher that
/// `DefaultHasher::new`/`default` makes starts the same (no per-process seed),
/// so the hash is a function of the text within a build. The algorithm itself
/// is left unstated.
pub uninterp spec fn content_hash(s: Seq<char>) -> u64;

/// `BuildHasher::hash_one` on the default builder of `DefaultHasher`: the
/// contract claims only that the result is `content_hash` of the text.
#[verifier::external_body]
fn simple_hash(s: &str) -> (r: u64)
    ensures
        r == content_hash(s@),
{
    let builder = std::hash::BuildHasherDefault::<std::collections::hash_map::DefaultHasher>::default();
    std::hash::BuildHasher::hash_one(&builder, s)
}

/// The diff of the two compared documents, kept until either changes.
pub struct DiffCache {
    /// Cached diff operations.
    pub diff_ops: Vec<DiffOp>,
    /// Hash of left content when diff was last computed.
    pub left_hash: u64,
    /// Hash of right content when diff was last computed.
    pub right_hash: u64,
}

impl DiffCache {
    pub fn new() -> (r: DiffCache)
        ensures
            r.diff_ops@.len() == 0,
            r.left_hash == 0,
            r.right_hash == 0,
    {
        DiffCache { diff_ops: Vec::new(), left_hash: 0, right_hash: 0 }
    }

    /// Whether the contents with these hashes need a new diff.
    pub fn is_stale(&self, left_hash: u64, right_hash: u64) -> (r: bool)
        ensures
            r == (left_hash != self.left_hash || right_hash != self.right_hash),
    {
        left_hash != self.left_hash || right_hash != self.right_hash
    }

    /// Hashes the two contents: whether the cached diff is not of them, and
    /// their hashes (to store with a new diff).
    pub fn check(&self, left_content: &str, right_content: &str) -> (r: (bool, u64, u64))
        ensures
            r.1 == content_hash(left_content@),
            r.2 == content_hash(right_content@),
            r.0 == (r.1 != self.left_hash || r.2 != self.right_hash),
    {
        let lh = simple_hash(left_content);
        let rh = simple_hash(right_content);
        (self.is_stale(lh, rh), lh, rh)
    }

    /// Keeps a new diff and the hashes of the contents it is of.
    pub fn store(&mut self, ops: Vec<DiffOp>, left_hash: u64, right_hash: u64)
        ensures
            final(self).diff_ops == ops,
            final(self).left_hash == left_hash,
            final(self).right_hash == right_hash,
    {
        self.diff_ops = ops;
        self.left_hash = left_hash;
        self.right_hash = right_hash;
    }
}

} // verus!
