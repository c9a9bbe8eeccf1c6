use poet::action::Action;
use poet::chars::position;
use poet::combobox::ComboItem;
use poet::context::{Context, TextbufferContext};
use poet::editor::combobox::{ComboBox, ComboSelection};
use poet::editor::selection::Selection as FieldSelection;
use poet::editor::textbox::TextBox as PlainTextBox;
use poet::filebox::FileBox;
use poet::filebuffer::Filebuffer;
use poet::selection::{Selection, SelectionMode};
use poet::status::{DialogueMode, DialogueStatus};
use poet::textbox::TextBox;
use poet::textbuffer::info::LineInfo;

fn chars(s: &str) -> Vec<char> {
    s.chars().collect()
}

fn context() -> Context {
    Context {
        line_numbers: true,
        font_size: 14,
        tab_width: 4,
        scroll_size: 5,
        selection_gap: 8,
        append_lines: false,
        status_bar: true,
        highlighting: true,
        theme_name: "default".to_string(),
        selection_lines: true,
        preserve_lines: true,
        unfocused_selections: true,
        focus_bar: true,
        start_at_symbol: true,
        antialiasing_level: 8,
        bindings: Vec::new(),
    }
}

#[test]
fn literals_name_actions() {
    assert_eq!(Action::from_literal(&"quit".to_string()).unwrap(), Action::Quit);
    assert_eq!(Action::from_literal(&"token_mode".to_string()).unwrap(), Action::TokenMode);
    assert_eq!(Action::from_literal(&"extend_page_down".to_string()).unwrap(), Action::ExtendPageDown);
    assert_eq!(Action::from_literal(&"rotate".to_string()).unwrap(), Action::Rotate);
}

#[test]
fn unknown_literals_are_refused() {
    let error = Action::from_literal(&"nope".to_string()).unwrap_err();
    assert_eq!(error.literal, "nope".to_string());
    assert!(Action::from_literal(&"Quit".to_string()).is_err());
}

#[test]
fn positions_include_overlapping_occurrences() {
    assert_eq!(position(&chars("aaaa"), &chars("aa")), vec![0, 1, 2]);
    assert_eq!(position(&chars("abc"), &chars("x")), Vec::<usize>::new());
}

#[test]
fn undo_after_a_separate_insertion_gives_the_text_back() {
    let mut fb = Filebuffer::new(chars("ab"));
    fb.insert_text(0, 1, chars("X"), false);
    assert_eq!(fb.get_text(), chars("aXb"));
    fb.undo();
    assert_eq!(fb.get_text(), chars("ab"));
    assert_eq!(fb.get_history_index(), 0);
    fb.redo();
    assert_eq!(fb.get_text(), chars("aXb"));
}

#[test]
fn undo_after_a_separate_removal_gives_the_text_back() {
    let mut fb = Filebuffer::new(chars("abcd"));
    fb.remove_text(0, 1, 2, false);
    assert_eq!(fb.get_text(), chars("ad"));
    fb.undo();
    assert_eq!(fb.get_text(), chars("abcd"));
}

#[test]
fn recording_after_an_undo_drops_what_was_undone() {
    let mut fb = Filebuffer::new(chars("ab"));
    fb.insert_text(0, 0, chars("x"), false);
    fb.undo();
    fb.insert_text(0, 2, chars("y"), false);
    assert_eq!(fb.get_text(), chars("aby"));
    assert_eq!(fb.history_length(), 1);
    fb.redo();
    assert_eq!(fb.get_text(), chars("aby"));
}

#[test]
fn zoom_stays_within_bounds() {
    let mut c = context();
    c.font_size = 50;
    c.zoom_in();
    assert_eq!(c.font_size, 50);
    c.font_size = 49;
    c.zoom_in();
    assert_eq!(c.font_size, 50);
    c.font_size = 5;
    c.zoom_out();
    assert_eq!(c.font_size, 5);
    c.font_size = 6;
    c.zoom_out();
    assert_eq!(c.font_size, 5);
}

#[test]
fn antialiasing_doubles_and_halves() {
    let mut c = context();
    c.antialiasing_level = 8;
    c.increase_antialiasing();
    assert_eq!(c.antialiasing_level, 8);
    c.antialiasing_level = 4;
    c.increase_antialiasing();
    assert_eq!(c.antialiasing_level, 8);
    c.antialiasing_level = 0;
    c.increase_antialiasing();
    assert_eq!(c.antialiasing_level, 0);
    c.antialiasing_level = 1;
    c.decrease_antialiasing();
    assert_eq!(c.antialiasing_level, 0);
    c.decrease_antialiasing();
    assert_eq!(c.antialiasing_level, 0);
}

#[test]
fn toggles_flip_one_flag() {
    let mut c = context();
    c.toggle_line_numbers();
    assert!(!c.line_numbers);
    assert!(c.status_bar);
    c.toggle_focus_bar();
    assert!(!c.focus_bar);
    let mut t = TextbufferContext::from();
    t.toggle_preserve_lines();
    assert!(!t.preserve_lines);
    assert!(t.highlighting);
}

#[test]
fn textbuffer_settings_for_editors_and_fields() {
    let editor = TextbufferContext::from();
    assert!(editor.multiline && editor.line_numbers && editor.start_at_symbol);
    assert_eq!(editor.scroll_size, 8);
    let field = TextbufferContext::textbox();
    assert!(!field.multiline && !field.line_numbers && !field.start_at_symbol);
    assert_eq!(field.scroll_size, 0);
}

#[test]
fn dialogue_statuses() {
    let handled = DialogueStatus::handled();
    assert!(handled.handled && !handled.closed);
    let completed = DialogueStatus::completed();
    assert!(completed.closed && completed.completed);
    let aborted = DialogueStatus::aborted();
    assert!(aborted.closed && !aborted.completed);
    assert!(!DialogueStatus::unhandled().handled);
    let mode = DialogueMode::Replace(vec![FieldSelection::new(1, 2, 3)]);
    assert!(matches!(mode.clone(), DialogueMode::Replace(s) if s.len() == 1));
}

#[test]
fn field_selections() {
    let mut s = FieldSelection::new(4, 2, 1);
    s.set_index_offset(7, 3);
    assert_eq!((s.index, s.length, s.offset), (7, 2, 3));
    s.set_index_length(1, 5);
    assert_eq!((s.index, s.length, s.offset), (1, 5, 3));
    s.reversed = true;
    s.reset();
    assert_eq!((s.length, s.reversed), (1, false));
}

#[test]
fn selection_modes_and_lines() {
    assert_eq!(SelectionMode::Word.name(), "word");
    assert!(SelectionMode::Line.is_line() && !SelectionMode::Line.is_character());
    assert_eq!(LineInfo::new(3, 10, 4), LineInfo { number: 3, index: 10, length: 4, highlighted: false });
    assert_eq!(Selection::new(1, 2, 3).secondary_index, 2);
}

#[test]
fn plain_text_fields_keep_a_closing_space() {
    let mut field = PlainTextBox::new("name", 1);
    assert_eq!(field.get(), Vec::<char>::new());
    field.set(chars("abc"));
    assert_eq!(field.get(), chars("abc"));
    assert_eq!(field.content, chars("abc "));
    assert_eq!(field.handle_action(Action::Confirm), (true, Some(true)));
    assert_eq!(field.handle_action(Action::Abort), (true, Some(false)));
    assert_eq!(field.handle_action(Action::Left), (true, None));
    assert_eq!(field.handle_action(Action::Quit), (false, None));
}

fn fruit_box(path_mode: bool, variants: &[&str]) -> ComboBox {
    ComboBox::new("pick", 0, false, path_mode, variants.iter().map(|v| chars(v)).collect())
}

#[test]
fn combo_box_walks_the_variants() {
    let c = context();
    let mut combo = fruit_box(false, &["apple", "banana", "grape"]);
    assert_eq!(combo.handle_action(&c, Action::Down), (true, None));
    assert_eq!(combo.get(), chars("apple"));
    combo.handle_action(&c, Action::Down);
    assert_eq!(combo.get(), chars("banana"));
    combo.handle_action(&c, Action::Up);
    assert_eq!(combo.get(), chars("apple"));
    combo.handle_action(&c, Action::Up);
    assert!(combo.selection.is_textbox());
    assert_eq!(combo.get(), Vec::<char>::new());
}

#[test]
fn combo_box_filters_by_what_was_typed() {
    let mut combo = fruit_box(false, &["apple", "banana", "grape"]);
    combo.textbox.set(chars("ap"));
    assert_eq!(combo.valid_variants(), vec![chars("apple"), chars("grape")]);
    combo.textbox.set(chars("an"));
    assert_eq!(combo.valid_variants(), vec![chars("banana")]);
}

#[test]
fn combo_box_completes_on_confirm() {
    let c = context();
    let mut combo = fruit_box(false, &["apple", "banana"]);
    combo.textbox.set(chars("nan"));
    assert_eq!(combo.handle_action(&c, Action::Confirm), (true, Some(true)));
    assert_eq!(combo.get(), chars("banana"));
    let mut none = fruit_box(false, &["apple"]);
    none.textbox.set(chars("zzz"));
    assert_eq!(none.handle_action(&c, Action::Confirm), (true, None));
    assert_eq!(none.get(), chars("zzz"));
}

#[test]
fn combo_box_in_path_mode_keeps_the_directory() {
    let c = context();
    let mut combo = fruit_box(true, &["notes.txt", "src/"]);
    combo.textbox.set(chars("docs/no"));
    assert_eq!(combo.valid_variants(), vec![chars("notes.txt")]);
    assert_eq!(combo.get_combined(&chars("x")), chars("docs/x"));
    combo.handle_action(&c, Action::Down);
    assert_eq!(combo.get(), chars("docs/notes.txt"));
    assert!(combo.selection.index_matches(0));
    assert!(matches!(combo.selection, ComboSelection::Variant(0, _)));
}

#[test]
fn listing_moves_hidden_entries_as_the_listing_does() {
    let entries = vec![chars("a"), chars(".b"), chars("c")];
    let sorted = FileBox::entries_with_parent(entries, &chars("./"), true);
    assert_eq!(sorted, vec![chars(".b"), chars("c"), chars("a"), chars("../")]);
    let entries = vec![chars(".a"), chars("b")];
    let hidden = FileBox::entries_with_parent(entries, &chars("dir/"), false);
    assert_eq!(hidden, vec![chars("b")]);
}

#[test]
fn removing_a_section_asks_for_the_directory_above() {
    let c = context();
    let mut files = FileBox::new("open", 0, true, Some(vec![chars("a")]));
    let names: Vec<Vec<char>> = files.combobox.valid_items().iter().map(|item| item.update_name()).collect();
    assert_eq!(names, vec![chars("a"), chars("../")]);
    files.combobox.set_text(chars("dir/sub/"));
    assert_eq!(files.handle_action(&c, Action::RemoveSection), (true, None));
    assert_eq!(files.get(), chars("dir/"));
    assert_eq!(files.directories, 1);
    assert_eq!(files.listing, Some(chars("dir/")));
    assert_eq!(files.prefix, chars("dir/"));
    files.apply_listing(Some(vec![chars("x"), chars("y/")]));
    assert_eq!(files.listing, None);
    let names: Vec<Vec<char>> = files.combobox.valid_items().iter().map(|item| item.update_name()).collect();
    assert_eq!(names, vec![chars("dir/x"), chars("dir/y/")]);
}

#[test]
fn removing_the_only_section_empties_the_path() {
    let c = context();
    let mut files = FileBox::new("open", 0, true, None);
    files.combobox.set_text(chars("main.rs"));
    assert_eq!(files.handle_action(&c, Action::RemoveSection), (true, None));
    assert_eq!(files.get(), Vec::<char>::new());
    assert_eq!(files.directories, 0);
}

#[test]
fn typing_a_path_asks_for_its_directory() {
    let mut files = FileBox::new("open", 0, true, None);
    for character in "src/".chars() {
        files.add_character(character);
    }
    assert_eq!(files.get(), chars("src/"));
    assert_eq!(files.directories, 1);
    assert_eq!(files.listing, Some(chars("src/")));
    assert_eq!(files.prefix, chars("src/"));
}

#[test]
fn confirming_a_directory_enters_it() {
    let c = context();
    let mut files = FileBox::new("open", 0, false, Some(vec![chars("src/"), chars("main.rs")]));
    files.handle_action(&c, Action::Down);
    assert_eq!(files.get(), chars("src/"));
    assert_eq!(files.handle_action(&c, Action::Confirm), (true, None));
    assert_eq!(files.get(), chars("src/"));
    assert!(files.combobox.is_textbox_focused());
    assert_eq!(files.listing, Some(chars("src/")));
}

#[test]
fn confirming_a_file_completes() {
    let c = context();
    let mut files = FileBox::new("open", 0, false, Some(vec![chars("src/"), chars("main.rs")]));
    files.add_character('m');
    assert_eq!(files.handle_action(&c, Action::Confirm), (true, Some(true)));
    assert_eq!(files.get(), chars("main.rs"));
}

#[test]
fn toggling_hidden_files_asks_for_the_listing_again() {
    let c = context();
    let mut files = FileBox::new("open", 0, true, None);
    assert!(files.combobox.valid_items().is_empty());
    assert_eq!(files.handle_action(&c, Action::ToggleHiddenFiles), (true, None));
    assert!(!files.show_hidden_files);
    assert_eq!(files.listing, Some(chars("./")));
}

#[test]
fn text_fields_type_and_confirm() {
    let mut field = TextBox::new("name", 0);
    assert_eq!(field.get(), Vec::<char>::new());
    field.set_text(chars("hi"));
    assert_eq!(field.get(), chars("hi"));
    assert_eq!(field.textbuffer.get_selections(), vec![Selection::new(2, 2, 2)]);
    field.add_character('!');
    assert_eq!(field.get(), chars("hi!"));
    assert_eq!(field.handle_action(Action::Confirm), (true, Some(true)));
    assert_eq!(field.handle_action(Action::Left), (true, None));
    assert_eq!(field.handle_action(Action::Quit), (false, None));
    field.clear();
    assert_eq!(field.get(), Vec::<char>::new());
}
