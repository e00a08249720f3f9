//! The projection of the editor's state into terminal draw operations: a
//! header row, the visible lines, a footer row and the hardware cursor.
use vstd::prelude::*;
use crate::document::lines_view;

verus! {

#[derive(Clone, Copy, Debug, PartialEq, Eq, Structural)]
pub enum Style {
    /// Black on white, for the header and footer rows.
    Inverted,
    /// The terminal's default colours.
    Plain,
}

/// One instruction to the terminal.
pub enum DrawOp {
    /// Put the cursor at `(column, row)` of the screen.
    MoveTo(usize, usize),
    SetStyle(Style),
    Print(String),
}

/// A draw operation with its text as a sequence.
pub enum DrawOpView {
    MoveTo(nat, nat),
    SetStyle(Style),
    Print(Seq<char>),
}

impl View for DrawOp {
    type V = DrawOpView;

    open spec fn view(&self) -> DrawOpView {
        match self {
            DrawOp::MoveTo(c, r) => DrawOpView::MoveTo(*c as nat, *r as nat),
            DrawOp::SetStyle(s) => DrawOpView::SetStyle(*s),
            DrawOp::Print(t) => DrawOpView::Print(t@),
        }
    }
}

pub open spec fn min_nat(a: nat, b: nat) -> nat {
    if a <= b {
        a
    } else {
        b
    }
}

pub open spec fn spaces(n: nat) -> Seq<char> {
    Seq::new(n, |_i: int| ' ')
}

/// `t` followed by spaces up to width `w`; a longer `t` stays as it is.
pub open spec fn padded(t: Seq<char>, w: nat) -> Seq<char> {
    t + spaces((w - min_nat(t.len(), w)) as nat)
}

/// The first `w` characters of `t`.
pub open spec fn clipped(t: Seq<char>, w: nat) -> Seq<char> {
    t.take(min_nat(t.len(), w) as int)
}

/// Two spaces, the file's path, a space, and `*` when there are unsaved
/// changes (a space otherwise).
pub open spec fn header_text(path: Seq<char>, dirty: bool) -> Seq<char> {
    seq![' ', ' '] + path + seq![
        ' ',
        if dirty {
            '*'
        } else {
            ' '
        },
    ]
}

pub open spec fn footer_text() -> Seq<char> {
    "  Ctrl-Q: Quit  Ctrl-S: Save"@
}

/// The number of document rows shown: the height less header and footer.
pub open spec fn content_rows(height: nat) -> nat {
    if height >= 2 {
        (height - 2) as nat
    } else {
        0
    }
}

/// Screen row `i` of the document area: line `i` clipped to the width, or a
/// blank row past the last line, padded to the width.
pub open spec fn row_text(lines: Seq<Seq<char>>, i: int, width: nat) -> Seq<char> {
    if i < lines.len() {
        padded(clipped(lines[i], width), width)
    } else {
        padded(Seq::<char>::empty(), width)
    }
}

/// The whole frame, in order: the header, the document rows, the footer, and
/// the hardware cursor at the clamped column, one row below the cursor's line
/// because of the header.
pub open spec fn frame(
    lines: Seq<Seq<char>>,
    col: nat,
    row: nat,
    dirty: bool,
    width: nat,
    height: nat,
    path: Seq<char>,
) -> Seq<DrawOpView> {
    let n = content_rows(height) as int;
    Seq::new(
        (n + 7) as nat,
        |k: int|
            if k == 0 {
                DrawOpView::MoveTo(0, 0)
            } else if k == 1 {
                DrawOpView::SetStyle(Style::Inverted)
            } else if k == 2 {
                DrawOpView::Print(padded(header_text(path, dirty), width))
            } else if k == 3 {
                DrawOpView::SetStyle(Style::Plain)
            } else if k < n + 4 {
                DrawOpView::Print(row_text(lines, k - 4, width))
            } else if k == n + 4 {
                DrawOpView::SetStyle(Style::Inverted)
            } else if k == n + 5 {
                DrawOpView::Print(padded(footer_text(), width))
            } else {
                DrawOpView::MoveTo(min_nat(col, lines[row as int].len()), row + 1)
            },
    )
}

/// Appends `c`, counting the characters written so far up to `width`.
fn push_counted(out: &mut String, c: char, count: usize, width: usize) -> (next: usize)
    requires
        count <= width,
    ensures
        final(out)@ == old(out)@.push(c),
        next == min_nat((count + 1) as nat, width as nat),
{
    out.push(c);
    if count < width {
        count + 1
    } else {
        count
    }
}

/// Appends the characters of `t`, counting up to `width` as `push_counted`.
fn append_counted(out: &mut String, t: &str, count: usize, width: usize) -> (next: usize)
    requires
        count <= width,
    ensures
        final(out)@ == old(out)@ + t@,
        next == min_nat((count + t@.len()) as nat, width as nat),
{
    let ghost start = out@;
    let mut k = count;
    for c in it: t.chars()
        invariant
            it.seq() == t@,
            count <= width,
            out@ == start + t@.take(it.index() as int),
            k == min_nat((count + it.index()) as nat, width as nat),
    {
        proof {
            assert(t@.take(it.index() + 1) =~= t@.take(it.index() as int).push(c));
        }
        k = push_counted(out, c, k, width);
    }
    proof {
        assert(t@.take(t@.len() as int) =~= t@);
    }
    k
}

/// Appends spaces from `count` written characters up to `width`.
fn pad_to(out: &mut String, count: usize, width: usize)
    requires
        count <= width,
    ensures
        final(out)@ == old(out)@ + spaces((width - count) as nat),
{
    let ghost start = out@;
    let mut k = count;
    while k < width
        invariant
            count <= k <= width,
            out@ == start + spaces((k - count) as nat),
        decreases width - k,
    {
        out.push(' ');
        proof {
            assert(spaces((k + 1 - count) as nat) =~= spaces((k - count) as nat).push(' '));
        }
        k += 1;
    }
}

/// Line `line` clipped and padded to `width`.
fn line_row(line: &Vec<char>, width: usize) -> (r: String)
    ensures
        r@ == padded(clipped(line@, width as nat), width as nat),
{
    let mut out = String::new();
    let n = if line.len() <= width {
        line.len()
    } else {
        width
    };
    let mut j: usize = 0;
    while j < n
        invariant
            n == min_nat(line@.len(), width as nat),
            j <= n,
            out@ == line@.take(j as int),
        decreases n - j,
    {
        out.push(line[j]);
        proof {
            assert(line@.take(j + 1) =~= line@.take(j as int).push(line@[j as int]));
        }
        j += 1;
    }
    pad_to(&mut out, n, width);
    out
}

/// The draw operations for one frame of the editor.
pub fn draw(
    lines: &Vec<Vec<char>>,
    cursor: (usize, usize),
    dirty: bool,
    viewport: (usize, usize),
    path: &String,
) -> (ops: Vec<DrawOp>)
    requires
        cursor.1 < lines@.len(),
    ensures
        ops@.len() == frame(
            lines_view(lines@),
            cursor.0 as nat,
            cursor.1 as nat,
            dirty,
            viewport.0 as nat,
            viewport.1 as nat,
            path@,
        ).len(),
        forall|k: int|
            0 <= k < ops@.len() ==> (#[trigger] ops@[k])@ == frame(
                lines_view(lines@),
                cursor.0 as nat,
                cursor.1 as nat,
                dirty,
                viewport.0 as nat,
                viewport.1 as nat,
                path@,
            )[k],
{
    let (width, height) = viewport;
    let ghost f = frame(
        lines_view(lines@),
        cursor.0 as nat,
        cursor.1 as nat,
        dirty,
        width as nat,
        height as nat,
        path@,
    );
    let n: usize = if height >= 2 {
        height - 2
    } else {
        0
    };
    let mut ops: Vec<DrawOp> = Vec::new();
    ops.push(DrawOp::MoveTo(0, 0));
    ops.push(DrawOp::SetStyle(Style::Inverted));

    let mut header = String::new();
    let mut k: usize = push_counted(&mut header, ' ', 0, width);
    k = push_counted(&mut header, ' ', k, width);
    k = append_counted(&mut header, path.as_str(), k, width);
    k = push_counted(&mut header, ' ', k, width);
    k = push_counted(&mut header, if dirty { '*' } else { ' ' }, k, width);
    pad_to(&mut header, k, width);
    proof {
        assert(header@ =~= padded(header_text(path@, dirty), width as nat));
    }
    ops.push(DrawOp::Print(header));
    ops.push(DrawOp::SetStyle(Style::Plain));

    let mut i: usize = 0;
    while i < n
        invariant
            n == content_rows(height as nat),
            i <= n,
            f == frame(
                lines_view(lines@),
                cursor.0 as nat,
                cursor.1 as nat,
                dirty,
                width as nat,
                height as nat,
                path@,
            ),
            ops@.len() == i + 4,
            forall|j: int| 0 <= j < ops@.len() ==> (#[trigger] ops@[j])@ == f[j],
        decreases n - i,
    {
        let row = if i < lines.len() {
            line_row(&lines[i], width)
        } else {
            let mut blank = String::new();
            pad_to(&mut blank, 0, width);
            proof {
                assert(blank@ =~= padded(Seq::<char>::empty(), width as nat));
            }
            blank
        };
        ops.push(DrawOp::Print(row));
        i += 1;
    }

    ops.push(DrawOp::SetStyle(Style::Inverted));
    let mut footer = String::new();
    let fk = append_counted(&mut footer, "  Ctrl-Q: Quit  Ctrl-S: Save", 0, width);
    pad_to(&mut footer, fk, width);
    proof {
        assert(footer@ =~= padded(footer_text(), width as nat));
    }
    ops.push(DrawOp::Print(footer));

    let n_lines = lines.len();
    assert(cursor.1 + 1 <= n_lines);
    let len = lines[cursor.1].len();
    let col = if cursor.0 <= len {
        cursor.0
    } else {
        len
    };
    ops.push(DrawOp::MoveTo(col, cursor.1 + 1));
    ops
}

} // verus!
