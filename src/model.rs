//! The buffer model: document, cursor, saved baseline and viewport, changed
//! one command at a time.
use vstd::prelude::*;
use crate::command::{command_for, command_of, Command, Dir, InputEvent};
use crate::render::{draw, frame, DrawOp, DrawOpView};
use crate::document::{join_document, join_lines, lines_view, parse_document, split_lines};

verus! {

/// The abstract state of the editor.
pub struct EditorState {
    pub lines: Seq<Seq<char>>,
    /// The cursor's column; it may lie past the end of its line.
    pub col: nat,
    pub row: nat,
    /// The text as last saved, if it was ever loaded or saved.
    pub baseline: Option<Seq<char>>,
    pub width: nat,
    pub height: nat,
    pub path: Seq<char>,
    pub quit: bool,
}

impl EditorState {
    /// At least one line, and the cursor on one of them.
    pub open spec fn inv(self) -> bool {
        self.lines.len() >= 1 && self.row < self.lines.len()
    }

    pub open spec fn last_row(self) -> nat {
        (self.lines.len() - 1) as nat
    }

    pub open spec fn cur_len(self) -> nat {
        self.lines[self.row as int].len()
    }

    /// The column, clamped to the length of the cursor's line.
    pub open spec fn clamped_col(self) -> nat {
        if self.col <= self.cur_len() {
            self.col
        } else {
            self.cur_len()
        }
    }

    /// The document as it would be saved.
    pub open spec fn text(self) -> Seq<char> {
        join_lines(self.lines)
    }

    /// Unsaved: never saved, or the text differs from the last saved one.
    pub open spec fn dirty(self) -> bool {
        match self.baseline {
            Some(b) => b != self.text(),
            None => true,
        }
    }

    /// What the machine needs for `cmd`: an inserted character's new column
    /// must fit in a `usize`.
    pub open spec fn room_for(self, cmd: Command) -> bool {
        cmd is InsertChar ==> self.cur_len() < usize::MAX
    }

    pub open spec fn at(self, col: nat, row: nat) -> EditorState {
        EditorState { col, row, ..self }
    }

    /// The state just after start-up, with `text` the file's content if it
    /// could be read.
    pub open spec fn loaded(path: Seq<char>, text: Option<Seq<char>>, width: nat, height: nat) -> EditorState {
        EditorState {
            lines: match text {
                Some(t) => split_lines(t),
                None => seq![Seq::<char>::empty()],
            },
            col: 0,
            row: 0,
            baseline: text,
            width,
            height,
            path,
            quit: false,
        }
    }

    /// The state once a write of `written` has finished, successfully or not.
    pub open spec fn after_save(self, written: Seq<char>, ok: bool) -> EditorState {
        if ok {
            EditorState { baseline: Some(written), ..self }
        } else {
            self
        }
    }

    /// What is drawn for this state.
    pub open spec fn screen(self) -> Seq<DrawOpView> {
        frame(self.lines, self.col, self.row, self.dirty(), self.width, self.height, self.path)
    }

    /// The state after one command.
    pub open spec fn step(self, cmd: Command) -> EditorState {
        let row = self.row as int;
        let len = self.cur_len();
        let x = self.clamped_col();
        let line = self.lines[row];
        match cmd {
            Command::Move(Dir::Left) => if x > 0 {
                self.at((x - 1) as nat, self.row)
            } else if self.row > 0 {
                self.at(self.lines[row - 1].len(), (self.row - 1) as nat)
            } else {
                self.at(x, self.row)
            },
            Command::Move(Dir::Right) => if x < len {
                self.at(x + 1, self.row)
            } else if self.row < self.last_row() {
                self.at(0, self.row + 1)
            } else {
                self.at(x, self.row)
            },
            Command::Move(Dir::Up) => if self.row > 0 {
                self.at(self.col, (self.row - 1) as nat)
            } else {
                self.at(0, 0)
            },
            Command::Move(Dir::Down) => if self.row < self.last_row() {
                self.at(self.col, self.row + 1)
            } else {
                self.at(self.lines.last().len(), self.last_row())
            },
            Command::Home => self.at(0, self.row),
            Command::End => self.at(len, self.row),
            Command::InsertChar(c) => EditorState {
                lines: self.lines.update(row, line.insert(x as int, c)),
                col: x + 1,
                ..self
            },
            Command::Backspace => if x > 0 {
                EditorState {
                    lines: self.lines.update(row, line.remove(x - 1)),
                    col: (x - 1) as nat,
                    ..self
                }
            } else if self.row > 0 {
                EditorState {
                    lines: self.lines.update(row - 1, self.lines[row - 1] + line).remove(row),
                    col: self.lines[row - 1].len(),
                    row: (self.row - 1) as nat,
                    ..self
                }
            } else {
                self
            },
            Command::Enter => EditorState {
                lines: self.lines.update(row, line.take(x as int)).insert(row + 1, line.skip(x as int)),
                col: 0,
                row: self.row + 1,
                ..self
            },
            Command::Save => self,
            Command::Quit => EditorState { quit: true, ..self },
            Command::Resize(w, h) => EditorState { width: w as nat, height: h as nat, ..self },
            Command::Ignore => self,
        }
    }
}

/// What the caller must do after a command.
pub enum Effect {
    Nothing,
    /// Write this text to the file, then report the outcome with
    /// `Model::save_finished`.
    Persist(String),
}

/// The editor's state.
pub struct Model {
    exit: bool,
    orig: Option<String>,
    dimensions: (usize, usize),
    file_path: String,
    content: Vec<Vec<char>>,
    cursor: (usize, usize),
}

impl View for Model {
    type V = EditorState;

    closed spec fn view(&self) -> EditorState {
        EditorState {
            lines: lines_view(self.content@),
            col: self.cursor.0 as nat,
            row: self.cursor.1 as nat,
            baseline: match self.orig {
                Some(s) => Some(s@),
                None => None,
            },
            width: self.dimensions.0 as nat,
            height: self.dimensions.1 as nat,
            path: self.file_path@,
            quit: self.exit,
        }
    }
}

impl Model {
    /// The editor at start-up: `text` is the file's content, or `None` where
    /// it could not be read.
    pub fn new(file_path: String, text: Option<String>, width: usize, height: usize) -> (m: Model)
        ensures
            m@ == EditorState::loaded(
                file_path@,
                match text {
                    Some(t) => Some(t@),
                    None => None,
                },
                width as nat,
                height as nat,
            ),
            m@.inv(),
    {
        let content = match &text {
            Some(t) => {
                proof {
                    crate::document::lemma_split_nonempty(t@);
                }
                parse_document(t.as_str())
            },
            None => {
                let mut v: Vec<Vec<char>> = Vec::new();
                v.push(Vec::new());
                proof {
                    assert(lines_view(v@) =~= seq![Seq::<char>::empty()]);
                }
                v
            },
        };
        let m = Model {
            exit: false,
            orig: text,
            dimensions: (width, height),
            file_path,
            content,
            cursor: (0, 0),
        };
        m
    }

    /// Whether the machine has room for `cmd` (see `EditorState::room_for`).
    pub fn has_room_for(&self, cmd: Command) -> (r: bool)
        requires
            self@.inv(),
        ensures
            r == self@.room_for(cmd),
    {
        proof {
            self.lemma_view_line(self.cursor.1 as int);
        }
        match cmd {
            Command::InsertChar(_) => self.content[self.cursor.1].len() < usize::MAX,
            _ => true,
        }
    }

    proof fn lemma_view_line(&self, i: int)
        requires
            0 <= i < self.content@.len(),
        ensures
            self@.lines[i] == self.content@[i]@,
            self@.lines.len() == self.content@.len(),
    {
    }

    /// Applies one command.
    pub fn apply(&mut self, cmd: Command) -> (eff: Effect)
        requires
            old(self)@.inv(),
            old(self)@.room_for(cmd),
        ensures
            final(self)@ == old(self)@.step(cmd),
            final(self)@.inv(),
            match eff {
                Effect::Persist(t) => cmd == Command::Save && t@ == old(self)@.text(),
                Effect::Nothing => cmd != Command::Save,
            },
    {
        let ghost s = self@;
        let row = self.cursor.1;
        let len = self.content[row].len();
        let x = if self.cursor.0 <= len {
            self.cursor.0
        } else {
            len
        };
        let last = self.content.len() - 1;
        proof {
            self.lemma_view_line(row as int);
        }
        match cmd {
            Command::Move(Dir::Left) => {
                if x > 0 {
                    self.cursor = (x - 1, row);
                } else if row > 0 {
                    proof {
                        self.lemma_view_line(row - 1);
                    }
                    self.cursor = (self.content[row - 1].len(), row - 1);
                } else {
                    self.cursor = (x, row);
                }
                Effect::Nothing
            },
            Command::Move(Dir::Right) => {
                if x < len {
                    self.cursor = (x + 1, row);
                } else if row < last {
                    self.cursor = (0, row + 1);
                } else {
                    self.cursor = (x, row);
                }
                Effect::Nothing
            },
            Command::Move(Dir::Up) => {
                if row > 0 {
                    self.cursor = (self.cursor.0, row - 1);
                } else {
                    self.cursor = (0, 0);
                }
                Effect::Nothing
            },
            Command::Move(Dir::Down) => {
                if row < last {
                    self.cursor = (self.cursor.0, row + 1);
                } else {
                    proof {
                        self.lemma_view_line(last as int);
                    }
                    self.cursor = (self.content[last].len(), last);
                }
                Effect::Nothing
            },
            Command::Home => {
                self.cursor = (0, row);
                Effect::Nothing
            },
            Command::End => {
                self.cursor = (len, row);
                Effect::Nothing
            },
            Command::InsertChar(c) => {
                self.content[row].insert(x, c);
                self.cursor = (x + 1, row);
                proof {
                    assert(self@.lines =~= s.lines.update(
                        row as int,
                        s.lines[row as int].insert(x as int, c),
                    ));
                }
                Effect::Nothing
            },
            Command::Backspace => {
                if x > 0 {
                    self.content[row].remove(x - 1);
                    self.cursor = (x - 1, row);
                    proof {
                        assert(self@.lines =~= s.lines.update(
                            row as int,
                            s.lines[row as int].remove(x - 1),
                        ));
                    }
                } else if row > 0 {
                    proof {
                        self.lemma_view_line(row - 1);
                    }
                    let prev_len = self.content[row - 1].len();
                    let mut tail = self.content.remove(row);
                    self.content[row - 1].append(&mut tail);
                    self.cursor = (prev_len, row - 1);
                    proof {
                        assert(self@.lines =~= s.lines.update(
                            row - 1,
                            s.lines[row - 1] + s.lines[row as int],
                        ).remove(row as int));
                    }
                }
                Effect::Nothing
            },
            Command::Enter => {
                let rest = self.content[row].split_off(x);
                self.content.insert(row + 1, rest);
                self.cursor = (0, row + 1);
                proof {
                    assert(self@.lines =~= s.lines.update(
                        row as int,
                        s.lines[row as int].take(x as int),
                    ).insert(row + 1, s.lines[row as int].skip(x as int)));
                }
                Effect::Nothing
            },
            Command::Save => Effect::Persist(self.content_to_string()),
            Command::Quit => {
                self.exit = true;
                Effect::Nothing
            },
            Command::Resize(w, h) => {
                self.dimensions = (w, h);
                Effect::Nothing
            },
            Command::Ignore => Effect::Nothing,
        }
    }

    /// Maps a raw event to its command and applies it.
    pub fn update(&mut self, ev: InputEvent) -> (eff: Effect)
        requires
            old(self)@.inv(),
            old(self)@.room_for(command_of(ev)),
        ensures
            final(self)@ == old(self)@.step(command_of(ev)),
            final(self)@.inv(),
            match eff {
                Effect::Persist(t) => command_of(ev) == Command::Save && t@ == old(self)@.text(),
                Effect::Nothing => command_of(ev) != Command::Save,
            },
    {
        let cmd = command_for(ev);
        self.apply(cmd)
    }

    /// Records the outcome of writing `written` to the file: on success it
    /// becomes the saved baseline, on failure nothing changes.
    pub fn save_finished(&mut self, written: String, ok: bool)
        ensures
            final(self)@ == old(self)@.after_save(written@, ok),
    {
        if ok {
            self.orig = Some(written);
        }
    }

    /// The document joined by `'\n'`, as it is saved.
    pub fn content_to_string(&self) -> (s: String)
        requires
            self@.inv(),
        ensures
            s@ == self@.text(),
    {
        join_document(&self.content)
    }

    /// Whether the document has unsaved changes.
    pub fn is_dirty(&self) -> (r: bool)
        requires
            self@.inv(),
        ensures
            r == self@.dirty(),
    {
        match &self.orig {
            Some(b) => {
                let s = self.content_to_string();
                !(s == *b)
            },
            None => true,
        }
    }

    /// The draw operations that repaint the whole screen.
    pub fn render(&self) -> (ops: Vec<DrawOp>)
        requires
            self@.inv(),
        ensures
            ops@.len() == self@.screen().len(),
            forall|k: int| 0 <= k < ops@.len() ==> (#[trigger] ops@[k])@ == self@.screen()[k],
    {
        let dirty = self.is_dirty();
        draw(&self.content, self.cursor, dirty, self.dimensions, &self.file_path)
    }

    pub fn lines(&self) -> (l: &Vec<Vec<char>>)
        ensures
            lines_view(l@) == self@.lines,
    {
        &self.content
    }

    /// The cursor as `(column, row)`.
    pub fn cursor(&self) -> (c: (usize, usize))
        ensures
            c.0 == self@.col,
            c.1 == self@.row,
    {
        self.cursor
    }

    /// The viewport as `(width, height)`.
    pub fn dimensions(&self) -> (d: (usize, usize))
        ensures
            d.0 == self@.width,
            d.1 == self@.height,
    {
        self.dimensions
    }

    pub fn file_path(&self) -> (p: &String)
        ensures
            p@ == self@.path,
    {
        &self.file_path
    }

    /// Whether a Quit command was applied.
    pub fn should_exit(&self) -> (q: bool)
        ensures
            q == self@.quit,
    {
        self.exit
    }
}

} // verus!
