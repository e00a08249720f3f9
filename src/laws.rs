//! Properties of the buffer model that hold across commands.
use vstd::prelude::*;
use crate::command::{Command, Dir};
use crate::document::{
    char_total, join_lines, lemma_join_len, lemma_join_split, lemma_split_nonempty,
    lemma_total_insert, lemma_total_remove, lemma_total_update, split_lines,
};
use crate::model::EditorState;

verus! {

/// Away from the ends of its line, moving left and then right brings the
/// cursor back where it was, and so does moving right and then left.
pub proof fn lemma_left_right_inverse(s: EditorState)
    requires
        s.inv(),
        s.col <= s.cur_len(),
    ensures
        s.col > 0 ==> s.step(Command::Move(Dir::Left)).step(Command::Move(Dir::Right)) == s,
        s.col < s.cur_len() ==> s.step(Command::Move(Dir::Right)).step(Command::Move(Dir::Left))
            == s,
{
}

/// Enter followed at once by Backspace restores the document and the cursor,
/// when the cursor stood within its line.
pub proof fn lemma_enter_backspace_inverse(s: EditorState)
    requires
        s.inv(),
        s.col <= s.cur_len(),
    ensures
        s.step(Command::Enter).step(Command::Backspace) == s,
{
    let row = s.row as int;
    let line = s.lines[row];
    let x = s.col as int;
    let split = s.step(Command::Enter);
    assert(split.lines[row] == line.take(x));
    assert(split.lines[row + 1] == line.skip(x));
    assert(split.clamped_col() == 0);
    let joined = split.step(Command::Backspace);
    assert(line.take(x) + line.skip(x) =~= line);
    assert(joined.lines =~= s.lines);
}

/// Saving a freshly loaded file writes back exactly the bytes that were read.
pub proof fn lemma_load_save_round_trip(path: Seq<char>, text: Seq<char>, width: nat, height: nat)
    ensures
        EditorState::loaded(path, Some(text), width, height).text() == text,
{
    lemma_join_split(text);
}

/// A freshly loaded file has no unsaved changes.
pub proof fn lemma_clean_after_load(path: Seq<char>, text: Seq<char>, width: nat, height: nat)
    ensures
        !EditorState::loaded(path, Some(text), width, height).dirty(),
{
    lemma_join_split(text);
}

/// After a Save whose write succeeded the document has no unsaved changes.
pub proof fn lemma_clean_after_save(s: EditorState)
    requires
        s.inv(),
    ensures
        !s.step(Command::Save).after_save(s.text(), true).dirty(),
{
}

/// Moving, Home, End, Resize, Ignore and Quit leave the dirty flag as it was.
pub proof fn lemma_dirty_unaffected(s: EditorState, cmd: Command)
    requires
        s.inv(),
        cmd is Move || cmd is Home || cmd is End || cmd is Resize || cmd is Ignore || cmd is Quit,
    ensures
        s.step(cmd).dirty() == s.dirty(),
{
}

/// The text's length after an edit: one more after an insertion or a split,
/// one less after a Backspace that deletes or joins.
proof fn lemma_edit_changes_text(s: EditorState, cmd: Command)
    requires
        s.inv(),
        cmd is InsertChar || cmd is Enter || (cmd is Backspace && (s.clamped_col() > 0
            || s.row > 0)),
    ensures
        s.step(cmd).text() != s.text(),
{
    let t = s.step(cmd);
    let row = s.row as int;
    let line = s.lines[row];
    let x = s.clamped_col() as int;
    lemma_join_len(s.lines);
    match cmd {
        Command::InsertChar(c) => {
            lemma_total_update(s.lines, row, line.insert(x, c));
            lemma_join_len(t.lines);
        },
        Command::Enter => {
            let upd = s.lines.update(row, line.take(x));
            lemma_total_update(s.lines, row, line.take(x));
            lemma_total_insert(upd, row + 1, line.skip(x));
            lemma_join_len(t.lines);
        },
        _ => {
            if x > 0 {
                lemma_total_update(s.lines, row, line.remove(x - 1));
                lemma_join_len(t.lines);
            } else {
                let upd = s.lines.update(row - 1, s.lines[row - 1] + line);
                lemma_total_update(s.lines, row - 1, s.lines[row - 1] + line);
                lemma_total_remove(upd, row);
                lemma_join_len(t.lines);
            }
        },
    }
}

/// An edit applied to a document without unsaved changes leaves it with
/// unsaved changes: any inserted character, any line split, and any
/// Backspace that is not at the very start of the document.
pub proof fn lemma_edit_makes_dirty(s: EditorState, cmd: Command)
    requires
        s.inv(),
        !s.dirty(),
        cmd is InsertChar || cmd is Enter || (cmd is Backspace && (s.clamped_col() > 0
            || s.row > 0)),
    ensures
        s.step(cmd).dirty(),
{
    lemma_edit_changes_text(s, cmd);
}

/// Backspace with the cursor at the start of the document changes nothing.
pub proof fn lemma_backspace_at_origin(s: EditorState)
    requires
        s.inv(),
        s.col == 0,
        s.row == 0,
    ensures
        s.step(Command::Backspace) == s,
{
}

/// A Resize changes the viewport and nothing else.
pub proof fn lemma_resize_only_viewport(s: EditorState, w: usize, h: usize)
    ensures
        s.step(Command::Resize(w, h)) == (EditorState { width: w as nat, height: h as nat, ..s }),
        s.step(Command::Resize(w, h)).lines == s.lines,
        s.step(Command::Resize(w, h)).col == s.col,
        s.step(Command::Resize(w, h)).row == s.row,
{
}

/// MoveDown on the last row puts the cursor at the end of that row, wherever
/// in it the cursor was.
pub proof fn lemma_move_down_last_row(s: EditorState)
    requires
        s.inv(),
        s.row == s.last_row(),
    ensures
        s.step(Command::Move(Dir::Down)).col == s.lines.last().len(),
        s.step(Command::Move(Dir::Down)).row == s.row,
        s.step(Command::Move(Dir::Down)).lines == s.lines,
{
}

/// Every command keeps the document non-empty and the cursor on a line.
pub proof fn lemma_step_keeps_inv(s: EditorState, cmd: Command)
    requires
        s.inv(),
    ensures
        s.step(cmd).inv(),
{
}

} // verus!
