use terminal_editor::command::{command_for, Command, Dir, InputEvent, Key, Modifiers};
use terminal_editor::document::{join_document, parse_document};
use terminal_editor::model::{Effect, Model};
use terminal_editor::render::{draw, DrawOp, Style};

fn load(text: &str) -> Model {
    Model::new("notes.txt".to_string(), Some(text.to_string()), 20, 6)
}

fn lines_of(m: &Model) -> Vec<String> {
    m.lines().iter().map(|l| l.iter().collect()).collect()
}

fn run(m: &mut Model, cmd: Command) {
    match m.apply(cmd) {
        Effect::Nothing => {}
        Effect::Persist(_) => panic!("unexpected write"),
    }
}

fn save(m: &mut Model) -> String {
    match m.apply(Command::Save) {
        Effect::Persist(t) => t,
        Effect::Nothing => panic!("save gave no write"),
    }
}

#[test]
fn load_move_and_split() {
    let mut m = load("ab\ncd");
    assert_eq!(lines_of(&m), vec!["ab", "cd"]);
    assert_eq!(m.cursor(), (0, 0));
    run(&mut m, Command::Move(Dir::Right));
    run(&mut m, Command::Move(Dir::Right));
    assert_eq!(m.cursor(), (2, 0));
    run(&mut m, Command::Enter);
    assert_eq!(lines_of(&m), vec!["ab", "", "cd"]);
    assert_eq!(m.cursor(), (0, 1));
}

#[test]
fn empty_file_saves_empty() {
    let mut m = load("");
    assert_eq!(lines_of(&m), vec![""]);
    assert_eq!(m.cursor(), (0, 0));
    let t = save(&mut m);
    assert_eq!(t, "");
    m.save_finished(t, true);
    assert!(!m.is_dirty());
}

#[test]
fn missing_file_starts_empty_and_dirty() {
    let m = Model::new("new.txt".to_string(), None, 20, 6);
    assert_eq!(lines_of(&m), vec![""]);
    assert!(m.is_dirty());
}

#[test]
fn trailing_newline_adds_empty_line() {
    let m = load("a\n");
    assert_eq!(lines_of(&m), vec!["a", ""]);
    let m2 = load("a\n\n");
    assert_eq!(lines_of(&m2), vec!["a", "", ""]);
}

#[test]
fn load_then_save_round_trips() {
    for text in ["", "a", "a\n", "\n", "ab\ncd", "x\n\ny\n", "é€\nz"] {
        let mut m = load(text);
        assert_eq!(m.content_to_string(), text);
        assert_eq!(save(&mut m), text);
        assert!(!m.is_dirty());
    }
}

#[test]
fn parse_and_join_documents() {
    let lines = parse_document("one\ntwo\n");
    assert_eq!(lines, vec![vec!['o', 'n', 'e'], vec!['t', 'w', 'o'], vec![]]);
    assert_eq!(join_document(&lines), "one\ntwo\n");
    assert_eq!(join_document(&vec![vec!['a'], vec!['b']]), "a\nb");
}

#[test]
fn left_then_right_inside_a_line() {
    let mut m = load("hello\nworld");
    run(&mut m, Command::Move(Dir::Down));
    run(&mut m, Command::Move(Dir::Right));
    run(&mut m, Command::Move(Dir::Right));
    assert_eq!(m.cursor(), (2, 1));
    run(&mut m, Command::Move(Dir::Left));
    run(&mut m, Command::Move(Dir::Right));
    assert_eq!(m.cursor(), (2, 1));
    run(&mut m, Command::Move(Dir::Right));
    run(&mut m, Command::Move(Dir::Left));
    assert_eq!(m.cursor(), (2, 1));
}

#[test]
fn left_and_right_cross_line_boundaries() {
    let mut m = load("ab\ncd");
    run(&mut m, Command::End);
    run(&mut m, Command::Move(Dir::Right));
    assert_eq!(m.cursor(), (0, 1));
    run(&mut m, Command::Move(Dir::Left));
    assert_eq!(m.cursor(), (2, 0));
    run(&mut m, Command::Home);
    run(&mut m, Command::Move(Dir::Left));
    assert_eq!(m.cursor(), (0, 0));
    run(&mut m, Command::Move(Dir::Down));
    run(&mut m, Command::End);
    run(&mut m, Command::Move(Dir::Right));
    assert_eq!(m.cursor(), (2, 1));
}

#[test]
fn enter_then_backspace_restores() {
    let mut m = load("hello\nworld");
    run(&mut m, Command::Move(Dir::Right));
    run(&mut m, Command::Move(Dir::Right));
    run(&mut m, Command::Enter);
    assert_eq!(lines_of(&m), vec!["he", "llo", "world"]);
    run(&mut m, Command::Backspace);
    assert_eq!(lines_of(&m), vec!["hello", "world"]);
    assert_eq!(m.cursor(), (2, 0));
}

#[test]
fn insert_and_backspace_in_line() {
    let mut m = load("ac");
    run(&mut m, Command::Move(Dir::Right));
    run(&mut m, Command::InsertChar('b'));
    assert_eq!(lines_of(&m), vec!["abc"]);
    assert_eq!(m.cursor(), (2, 0));
    run(&mut m, Command::Backspace);
    assert_eq!(lines_of(&m), vec!["ac"]);
    assert_eq!(m.cursor(), (1, 0));
}

#[test]
fn stale_column_is_clamped_before_editing() {
    let mut m = load("abcdef\nxy");
    run(&mut m, Command::End);
    run(&mut m, Command::Move(Dir::Down));
    assert_eq!(m.cursor(), (6, 1));
    run(&mut m, Command::InsertChar('z'));
    assert_eq!(lines_of(&m), vec!["abcdef", "xyz"]);
    assert_eq!(m.cursor(), (3, 1));
    run(&mut m, Command::Move(Dir::Up));
    run(&mut m, Command::End);
    run(&mut m, Command::Move(Dir::Down));
    run(&mut m, Command::Backspace);
    assert_eq!(lines_of(&m), vec!["abcdef", "xy"]);
    assert_eq!(m.cursor(), (2, 1));
}

#[test]
fn backspace_joins_lines() {
    let mut m = load("ab\ncd");
    run(&mut m, Command::Move(Dir::Down));
    run(&mut m, Command::Backspace);
    assert_eq!(lines_of(&m), vec!["abcd"]);
    assert_eq!(m.cursor(), (2, 0));
}

#[test]
fn backspace_at_origin_is_no_op() {
    let mut m = load("ab\ncd");
    run(&mut m, Command::Backspace);
    assert_eq!(lines_of(&m), vec!["ab", "cd"]);
    assert_eq!(m.cursor(), (0, 0));
    assert!(!m.is_dirty());
}

#[test]
fn resize_changes_only_viewport() {
    let mut m = load("ab\ncd");
    run(&mut m, Command::Move(Dir::Right));
    run(&mut m, Command::Resize(100, 40));
    assert_eq!(m.dimensions(), (100, 40));
    assert_eq!(lines_of(&m), vec!["ab", "cd"]);
    assert_eq!(m.cursor(), (1, 0));
    assert!(!m.is_dirty());
}

#[test]
fn move_down_on_last_row_goes_to_line_end() {
    let mut m = load("ab\ncdef");
    run(&mut m, Command::Move(Dir::Down));
    run(&mut m, Command::Move(Dir::Right));
    assert_eq!(m.cursor(), (1, 1));
    run(&mut m, Command::Move(Dir::Down));
    assert_eq!(m.cursor(), (4, 1));
}

#[test]
fn move_up_on_first_row_goes_to_origin() {
    let mut m = load("abc\nd");
    run(&mut m, Command::End);
    run(&mut m, Command::Move(Dir::Up));
    assert_eq!(m.cursor(), (0, 0));
}

#[test]
fn dirty_tracking() {
    let mut m = load("ab");
    assert!(!m.is_dirty());
    run(&mut m, Command::Move(Dir::Right));
    run(&mut m, Command::Home);
    run(&mut m, Command::Ignore);
    assert!(!m.is_dirty());
    run(&mut m, Command::InsertChar('x'));
    assert!(m.is_dirty());
    let t = save(&mut m);
    assert_eq!(t, "xab");
    m.save_finished(t, true);
    assert!(!m.is_dirty());
    run(&mut m, Command::Enter);
    assert!(m.is_dirty());
}

#[test]
fn failed_save_keeps_dirty() {
    let mut m = load("ab");
    run(&mut m, Command::InsertChar('x'));
    let t = save(&mut m);
    m.save_finished(t, false);
    assert!(m.is_dirty());
}

#[test]
fn quit_sets_exit_flag() {
    let mut m = load("ab");
    assert!(!m.should_exit());
    run(&mut m, Command::Quit);
    assert!(m.should_exit());
    assert_eq!(lines_of(&m), vec!["ab"]);
}

#[test]
fn room_for_insertion() {
    let m = load("ab");
    assert!(m.has_room_for(Command::InsertChar('x')));
    assert!(m.has_room_for(Command::Enter));
}

#[test]
fn key_mapping() {
    let key = |k, m| command_for(InputEvent::Key(k, m));
    assert_eq!(key(Key::Char('q'), Modifiers::Control), Command::Quit);
    assert_eq!(key(Key::Char('s'), Modifiers::Control), Command::Save);
    assert_eq!(key(Key::Char('q'), Modifiers::Plain), Command::InsertChar('q'));
    assert_eq!(key(Key::Char('x'), Modifiers::Control), Command::InsertChar('x'));
    assert_eq!(key(Key::Char('S'), Modifiers::Other), Command::InsertChar('S'));
    assert_eq!(key(Key::Left, Modifiers::Plain), Command::Move(Dir::Left));
    assert_eq!(key(Key::Right, Modifiers::Plain), Command::Move(Dir::Right));
    assert_eq!(key(Key::Up, Modifiers::Plain), Command::Move(Dir::Up));
    assert_eq!(key(Key::Down, Modifiers::Plain), Command::Move(Dir::Down));
    assert_eq!(key(Key::Home, Modifiers::Plain), Command::Home);
    assert_eq!(key(Key::End, Modifiers::Plain), Command::End);
    assert_eq!(key(Key::Backspace, Modifiers::Plain), Command::Backspace);
    assert_eq!(key(Key::Enter, Modifiers::Plain), Command::Enter);
    assert_eq!(key(Key::Left, Modifiers::Control), Command::Ignore);
    assert_eq!(key(Key::Enter, Modifiers::Other), Command::Ignore);
    assert_eq!(key(Key::Other, Modifiers::Plain), Command::Ignore);
    assert_eq!(command_for(InputEvent::Resize(80, 24)), Command::Resize(80, 24));
    assert_eq!(command_for(InputEvent::Other), Command::Ignore);
}

#[test]
fn update_maps_and_applies() {
    let mut m = load("ab");
    m.update(InputEvent::Key(Key::Char('z'), Modifiers::Plain));
    assert_eq!(lines_of(&m), vec!["zab"]);
    match m.update(InputEvent::Key(Key::Char('s'), Modifiers::Control)) {
        Effect::Persist(t) => assert_eq!(t, "zab"),
        Effect::Nothing => panic!("save gave no write"),
    }
}

fn printed(op: &DrawOp) -> String {
    match op {
        DrawOp::Print(s) => s.clone(),
        _ => panic!("not a print"),
    }
}

#[test]
fn render_frame_layout() {
    let mut m = Model::new("f.txt".to_string(), Some("hello world\nab".to_string()), 8, 5);
    let ops = m.render();
    assert_eq!(ops.len(), 10);
    assert!(matches!(ops[0], DrawOp::MoveTo(0, 0)));
    assert!(matches!(ops[1], DrawOp::SetStyle(Style::Inverted)));
    assert_eq!(printed(&ops[2]), "  f.txt  ");
    assert!(matches!(ops[3], DrawOp::SetStyle(Style::Plain)));
    assert_eq!(printed(&ops[4]), "hello wo");
    assert_eq!(printed(&ops[5]), "ab      ");
    assert_eq!(printed(&ops[6]), "        ");
    assert!(matches!(ops[7], DrawOp::SetStyle(Style::Inverted)));
    assert_eq!(printed(&ops[8]), "  Ctrl-Q: Quit  Ctrl-S: Save");
    assert!(matches!(ops[9], DrawOp::MoveTo(0, 1)));

    m.apply(Command::InsertChar('x'));
    let ops = m.render();
    assert_eq!(printed(&ops[2]), "  f.txt *");
}

#[test]
fn render_pads_header_and_clamps_cursor() {
    let lines = vec![vec!['a', 'b', 'c'], vec!['d']];
    let ops = draw(&lines, (3, 0), true, (12, 4), &"p".to_string());
    assert_eq!(ops.len(), 9);
    assert_eq!(printed(&ops[2]), "  p *       ");
    assert_eq!(printed(&ops[4]), "abc         ");
    assert_eq!(printed(&ops[5]), "d           ");
    assert_eq!(printed(&ops[7]), "  Ctrl-Q: Quit  Ctrl-S: Save");
    assert!(matches!(ops[8], DrawOp::MoveTo(3, 1)));

    let ops = draw(&lines, (5, 1), false, (40, 3), &"p".to_string());
    assert_eq!(ops.len(), 8);
    assert_eq!(printed(&ops[6]), format!("{:<40}", "  Ctrl-Q: Quit  Ctrl-S: Save"));
    assert!(matches!(ops[7], DrawOp::MoveTo(1, 2)));
}

#[test]
fn render_tiny_viewport_has_no_document_rows() {
    let lines = vec![vec!['a']];
    let ops = draw(&lines, (0, 0), false, (0, 1), &"p".to_string());
    assert_eq!(ops.len(), 7);
    assert_eq!(printed(&ops[2]), "  p  ");
}
