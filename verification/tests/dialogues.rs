use poet::action::Action;
use poet::bindings::{Binding, BindingError, BindingKey, ModifierKey, Modifiers};
use poet::combobox::{ComboBox, ComboItem, FileItem};
use poet::context::{Context, TextbufferContext};
use poet::dialogues::action::ActionDialogue;
use poet::dialogues::filebuffers::FilebuffersDialogue;
use poet::dialogues::find_replace::FindReplaceDialogue;
use poet::dialogues::language::{LanguageDialogue, LanguageItem};
use poet::dialogues::loaded_buffers::LoadedBuffersDialogue;
use poet::dialogues::open_file::OpenFileDialogue;
use poet::dialogues::set_language::SetLanguageDialogue;
use poet::filebuffer::Filebuffer;
use poet::instance::{is_unimplemented_action, window_action, InstanceCommand};
use poet::selection::{Selection, SelectionMode};
use poet::status::DialogueMode;
use poet::textbuffer::Textbuffer;

fn chars(s: &str) -> Vec<char> {
    s.chars().collect()
}

fn context() -> Context {
    Context {
        line_numbers: true,
        font_size: 14,
        tab_width: 4,
        scroll_size: 5,
        selection_gap: 8,
        append_lines: false,
        status_bar: true,
        highlighting: true,
        theme_name: "default".to_string(),
        selection_lines: true,
        preserve_lines: true,
        unfocused_selections: true,
        focus_bar: true,
        start_at_symbol: true,
        antialiasing_level: 8,
        bindings: Vec::new(),
    }
}

fn window(text: &str) -> (Textbuffer, Filebuffer, TextbufferContext) {
    let filebuffer = Filebuffer::new(chars(text));
    let context = TextbufferContext::from();
    let mut textbuffer = Textbuffer::new(0, '\n');
    textbuffer.update_layout(&context, &filebuffer, 10);
    (textbuffer, filebuffer, context)
}

fn binding(trigger: u32) -> Binding {
    Binding { trigger, included: Modifiers::new(), excluded: Modifiers::new() }
}

#[test]
fn a_binding_takes_its_last_trigger_and_its_modifiers() {
    let keys = vec![
        (BindingKey::Modifier(ModifierKey::Control), false),
        (BindingKey::Trigger(1), false),
        (BindingKey::Trigger(2), false),
        (BindingKey::Modifier(ModifierKey::Shift), true),
    ];
    let b = Binding::from_keys(&keys).unwrap();
    assert_eq!(b.trigger, 2);
    assert_eq!(b.included, Modifiers { shift: false, control: true, alt: false, system: false });
    assert_eq!(b.excluded, Modifiers { shift: true, control: false, alt: false, system: false });
}

#[test]
fn a_binding_cannot_rule_out_a_key() {
    let keys = vec![(BindingKey::Trigger(7), true), (BindingKey::Trigger(1), false)];
    assert_eq!(Binding::from_keys(&keys), Err(BindingError::ExcludedKey));
    let keys = vec![(BindingKey::Modifier(ModifierKey::Alt), false), (BindingKey::Trigger(7), true)];
    assert_eq!(Binding::from_keys(&keys), Err(BindingError::ExcludedKey));
    assert_eq!(BindingError::ExcludedKey.message(), "only modifiers can be excluded in bindings");
}

#[test]
fn a_binding_needs_a_trigger() {
    let keys = vec![(BindingKey::Modifier(ModifierKey::Alt), false), (BindingKey::Modifier(ModifierKey::System), true)];
    assert_eq!(Binding::from_keys(&keys), Err(BindingError::NoTrigger));
    assert_eq!(Binding::from_keys(&Vec::new()), Err(BindingError::NoTrigger));
    assert_eq!(BindingError::NoTrigger.message(), "keybinding must have a trigger");
}

#[test]
fn bindings_that_take_more_keys_come_first() {
    let mut c = context();
    c.add_binding(binding(1), 1, Action::Up);
    c.add_binding(binding(2), 3, Action::Down);
    c.add_binding(binding(3), 2, Action::Left);
    c.add_binding(binding(4), 3, Action::Right);
    let order: Vec<(u32, usize, Action)> = c.bindings.iter().map(|(b, l, a)| (b.trigger, *l, *a)).collect();
    assert_eq!(order, vec![(4, 3, Action::Right), (2, 3, Action::Down), (3, 2, Action::Left), (1, 1, Action::Up)]);
}

#[test]
fn matching_actions_come_once_in_binding_order() {
    let mut c = context();
    c.bindings = vec![
        (binding(1), 1, Action::Up),
        (binding(2), 1, Action::Down),
        (binding(3), 1, Action::Up),
        (binding(4), 1, Action::Left),
    ];
    assert_eq!(c.get_matching_actions(&vec![true, false, true, true]), vec![Action::Up, Action::Left]);
    assert_eq!(c.get_matching_actions(&vec![false, false, false, false]), Vec::<Action>::new());
}

#[test]
fn a_binding_fires_with_its_modifiers_and_without_those_it_rules_out() {
    let none = Modifiers { shift: false, control: false, alt: false, system: false };
    let control = Modifiers { control: true, ..none };
    let control_shift = Modifiers { shift: true, ..control };
    let b = Binding { trigger: 5, included: control, excluded: Modifiers { shift: true, ..none } };
    assert!(b.matches(5, control));
    assert!(b.matches(5, Modifiers { alt: true, ..control }));
    assert!(!b.matches(5, none));
    assert!(!b.matches(5, control_shift));
    assert!(!b.matches(6, control));
}

#[test]
fn a_key_gives_the_actions_of_the_bindings_it_fires() {
    let none = Modifiers { shift: false, control: false, alt: false, system: false };
    let control = Modifiers { control: true, ..none };
    let mut c = context();
    c.bindings = vec![
        (Binding { trigger: 1, included: control, excluded: none }, 2, Action::SaveFile),
        (Binding { trigger: 1, included: none, excluded: control }, 1, Action::Up),
        (Binding { trigger: 1, included: none, excluded: none }, 1, Action::Down),
        (Binding { trigger: 2, included: none, excluded: none }, 1, Action::Left),
    ];
    assert_eq!(c.get_actions_for_key(1, control), vec![Action::SaveFile, Action::Down]);
    assert_eq!(c.get_actions_for_key(1, none), vec![Action::Up, Action::Down]);
    assert_eq!(c.get_actions_for_key(3, none), Vec::<Action>::new());
}

#[test]
fn zooming_stays_between_the_font_size_limits() {
    let mut c = context();
    assert_eq!(window_action(&mut c, Action::ZoomIn), InstanceCommand::Rerender);
    assert_eq!(c.font_size, 15);
    c.font_size = 50;
    window_action(&mut c, Action::ZoomIn);
    assert_eq!(c.font_size, 50);
    c.font_size = 5;
    assert_eq!(window_action(&mut c, Action::ZoomOut), InstanceCommand::Rerender);
    assert_eq!(c.font_size, 5);
}

#[test]
fn windows_hand_on_closing_and_new_editors() {
    let mut c = context();
    assert_eq!(window_action(&mut c, Action::CloseWindow), InstanceCommand::CloseWindow);
    assert_eq!(window_action(&mut c, Action::NewEditor), InstanceCommand::NewEditor);
    assert_eq!(window_action(&mut c, Action::Left), InstanceCommand::Ignore);
    assert_eq!(c.font_size, 14);
    assert!(is_unimplemented_action(Action::Quit));
    assert!(is_unimplemented_action(Action::ToggleFocusBar));
    assert!(!is_unimplemented_action(Action::ZoomIn));
}

#[test]
fn the_action_dialogue_runs_an_action_by_name() {
    let c = context();
    let mut d = ActionDialogue::new();
    assert!(matches!(d.open(), DialogueMode::Action));
    let status = d.handle_action(&c, Action::Action);
    assert!(status.handled && !status.closed);
    for ch in "zoom i".chars() {
        d.add_character(ch);
    }
    let status = d.handle_action(&c, Action::Confirm);
    assert!(status.handled && status.closed && status.completed);
    assert_eq!(d.get_value(), Action::ZoomIn);
}

#[test]
fn deleting_a_focused_buffer_names_it() {
    let c = context();
    let mut d = FilebuffersDialogue::new();
    assert!(matches!(d.open(vec![chars("a.rs"), chars("b.rs")]), DialogueMode::Filebuffers));
    let status = d.handle_action(&c, Action::Filebuffers);
    assert!(status.0.handled && status.1.is_none());
    d.handle_action(&c, Action::Down);
    assert_eq!(d.get_text(), chars("a.rs"));
    let (status, removed) = d.handle_action(&c, Action::Delete);
    assert!(status.handled && !status.closed);
    assert_eq!(removed, Some(chars("a.rs")));
    assert_eq!(d.get_text(), chars("b.rs"));
}

#[test]
fn deleting_in_the_field_removes_no_buffer() {
    let c = context();
    let mut d = FilebuffersDialogue::new();
    d.open(vec![chars("a.rs")]);
    let (_, removed) = d.handle_action(&c, Action::Delete);
    assert_eq!(removed, None);
}

#[test]
fn the_recommended_language_is_marked() {
    let rust = LanguageItem::new(chars("rust.data"), chars("rust"), &chars("rust"));
    let c_item = LanguageItem::new(chars("c.data"), chars("c"), &chars("rust"));
    assert!(rust.recommended());
    assert!(!c_item.recommended());
}

#[test]
fn the_language_dialogue_completes_a_name() {
    let c = context();
    let mut d = LanguageDialogue::new();
    let items = vec![
        LanguageItem::new(chars("rust.data"), chars("rust"), &chars("rust")),
        LanguageItem::new(chars("c.data"), chars("c"), &chars("rust")),
    ];
    assert!(matches!(d.open(Some(items)), DialogueMode::Language));
    let status = d.handle_action(&c, Action::Language);
    assert!(status.handled && !status.closed);
    for ch in "ru".chars() {
        d.add_character(ch);
    }
    let status = d.handle_action(&c, Action::Confirm);
    assert!(status.completed);
    assert_eq!(d.get_text(), chars("rust"));
}

#[test]
fn the_language_dialogue_without_languages_is_empty() {
    let mut d = LanguageDialogue::new();
    d.add_character('x');
    assert!(matches!(d.open(None), DialogueMode::Language));
    assert_eq!(d.get_text(), Vec::<char>::new());
}

#[test]
fn the_set_language_dialogue_offers_the_known_languages() {
    let c = context();
    let mut d = SetLanguageDialogue::new();
    assert_eq!(d.language_box.variants.len(), 8);
    assert_eq!(d.language_box.variants[6], chars("rust"));
    assert_eq!(d.handle_action(&c, Action::SetLanguage), (true, Some(false)));
}

#[test]
fn the_loaded_buffers_dialogue_takes_the_names() {
    let c = context();
    let mut d = LoadedBuffersDialogue::new();
    d.update_variants(vec![chars("main.rs")]);
    assert_eq!(d.buffers_box.variants, vec![chars("main.rs")]);
    assert_eq!(d.handle_action(&c, Action::LoadedBuffers), (true, Some(false)));
}

#[test]
fn find_replace_switches_fields() {
    let mut d = FindReplaceDialogue::new();
    assert!(d.find_focused);
    assert_eq!(d.handle_action(Action::FocusNext), (true, None));
    assert!(!d.find_focused);
    d.add_character('x');
    assert_eq!(d.replace_textbox.get(), chars("x"));
    assert_eq!(d.find_textbox.get(), Vec::<char>::new());
    d.handle_action(Action::Up);
    assert!(d.find_focused);
    d.handle_action(Action::Down);
    assert!(!d.find_focused);
    assert_eq!(d.handle_action(Action::FindReplace), (true, Some(false)));
    assert_eq!(d.handle_action(Action::Left), (true, None));
    d.reset();
    assert!(d.find_focused);
    assert_eq!(d.replace_textbox.get(), Vec::<char>::new());
}

#[test]
fn the_open_file_dialogue_closes_on_its_action() {
    let c = context();
    let mut d = OpenFileDialogue::new(Some(vec![chars("src/"), chars("main.rs")]));
    assert_eq!(d.handle_action(&c, Action::OpenFile), (true, Some(false)));
    assert_eq!(d.get(), Vec::<char>::new());
}

#[test]
fn duplicate_up_adds_a_cursor_on_the_line_above() {
    let (mut tb, mut fb, ctx) = window("ab\ncd\n");
    tb.handle_action(&ctx, &mut fb, Action::Down);
    tb.handle_action(&ctx, &mut fb, Action::Right);
    assert_eq!(tb.get_selections(), vec![Selection::new(4, 4, 1)]);
    assert_eq!(tb.handle_action(&ctx, &mut fb, Action::DuplicateUp), None);
    assert_eq!(tb.get_selections(), vec![Selection::new(4, 4, 1), Selection::new(1, 1, 1)]);
}

#[test]
fn select_next_is_possible_only_with_another_occurrence() {
    let (mut tb, mut fb, ctx) = window("ab ab\n");
    tb.handle_action(&ctx, &mut fb, Action::ExtendRight);
    assert!(tb.select_next_possible(&fb));
    let (mut tb, mut fb, ctx) = window("ab cd\n");
    tb.handle_action(&ctx, &mut fb, Action::ExtendRight);
    assert!(!tb.select_next_possible(&fb));
    tb.handle_action(&ctx, &mut fb, Action::LineMode);
    assert_eq!(tb.get_mode(), SelectionMode::Line);
    assert!(tb.select_next_possible(&fb));
}

#[test]
fn opening_a_line_then_deleting_gives_the_text_back() {
    let (mut tb, mut fb, ctx) = window("ab\ncd\n");
    tb.handle_action(&ctx, &mut fb, Action::Down);
    tb.handle_action(&ctx, &mut fb, Action::Right);
    tb.handle_action(&ctx, &mut fb, Action::NewlineUp);
    assert_eq!(fb.get_text(), chars("ab\n\ncd\n"));
    tb.handle_action(&ctx, &mut fb, Action::Delete);
    assert_eq!(fb.get_text(), chars("ab\ncd\n"));
    assert_eq!(tb.get_selections(), vec![Selection::new(3, 3, 0)]);
}

#[test]
fn file_items_know_directories() {
    let directory = FileItem::new(chars("src/"), &chars("./"));
    let file = FileItem::new(chars("main.rs"), &chars("./"));
    assert_eq!(directory.display_name(), chars("src/"));
    assert_eq!(directory.update_name(), chars("./src/"));
    assert_eq!(file.return_value(), chars("./main.rs"));
}

#[test]
fn a_combo_box_of_files_completes_what_was_typed() {
    let c = context();
    let items = vec![FileItem::new(chars("src/"), &chars("./")), FileItem::new(chars("main.rs"), &chars("./"))];
    let mut combo = ComboBox::new("file", 0, false, items);
    combo.add_character('m');
    assert_eq!(combo.get_text(), chars("m"));
    assert_eq!(combo.valid_items().len(), 1);
    let status = combo.handle_action(&c, Action::Down);
    assert!(status.handled && !status.closed);
    assert_eq!(combo.get_text(), chars("./main.rs"));
    combo.handle_action(&c, Action::Up);
    assert!(combo.is_textbox_focused());
    assert_eq!(combo.get_text(), chars("m"));
    let status = combo.handle_action(&c, Action::Confirm);
    assert!(status.completed);
    assert_eq!(combo.get_value(), chars("./main.rs"));
}

#[test]
fn removing_the_focused_item_focuses_the_next_one() {
    let c = context();
    let here = chars("./");
    let items = vec![FileItem::new(chars("a"), &here), FileItem::new(chars("b"), &here), FileItem::new(chars("c"), &here)];
    let mut combo = ComboBox::new("file", 0, false, items);
    combo.handle_action(&c, Action::Down);
    combo.handle_action(&c, Action::Down);
    assert_eq!(combo.get_text(), chars("./b"));
    combo.remove_selected_item(&c);
    assert_eq!(combo.get_text(), chars("./c"));
    assert_eq!(combo.valid_items().len(), 2);
}

#[test]
fn actions_half_a_second_apart_are_recent() {
    assert!(poet::filebuffer::history::recent(Some(0)));
    assert!(poet::filebuffer::history::recent(Some(500_000_000)));
    assert!(!poet::filebuffer::history::recent(Some(500_000_001)));
    assert!(!poet::filebuffer::history::recent(None));
}

#[test]
fn a_selection_added_after_the_last_character_lies_past_the_text() {
    let (mut tb, mut fb, ctx) = window("ab\n");
    tb.jump_to_index(&ctx, &mut fb, 2);
    assert_eq!(tb.get_selections(), vec![Selection::new(2, 2, 2)]);
    assert!(tb.add_selection_possible(&ctx, &fb));
    assert_eq!(tb.handle_action(&ctx, &mut fb, Action::AddSelection), None);
    assert_eq!(tb.get_selections(), vec![Selection::new(2, 2, 2), Selection::new(3, 3, 0)]);
    assert!(tb.is_adding_selection());
    assert!(!tb.selections_inside(&fb));
    assert_eq!(fb.get_text(), chars("ab\n"));
    assert_eq!(tb.status_bar(&fb).line, 2);
    assert_eq!(tb.line_info(&ctx, &fb).len(), 1);
}

#[test]
fn undo_brings_the_selections_back() {
    let (mut tb, mut fb, ctx) = window("ab\n");
    tb.handle_action(&ctx, &mut fb, Action::Right);
    tb.add_character(&ctx, &mut fb, 'x');
    assert_eq!(fb.get_text(), chars("axb\n"));
    assert_eq!(tb.handle_action(&ctx, &mut fb, Action::Undo), None);
    assert_eq!(fb.get_text(), chars("ab\n"));
    // The move before the typing is undone with it where both came within
    // half a second.
    let back = tb.get_selections();
    assert!(back == vec![Selection::new(1, 1, 1)] || back == vec![Selection::new(0, 0, 0)]);
    assert_eq!(tb.handle_action(&ctx, &mut fb, Action::Redo), None);
    assert_eq!(fb.get_text(), chars("axb\n"));
    assert_eq!(tb.get_selections(), vec![Selection::new(2, 2, 2)]);
}

#[test]
fn catching_up_with_an_unmoved_history_changes_nothing() {
    let (mut tb, mut fb, ctx) = window("ab\ncd\n");
    tb.handle_action(&ctx, &mut fb, Action::Right);
    let before = tb.get_selections();
    assert!(!tb.history_catch_up(&ctx, &mut fb));
    assert_eq!(tb.get_selections(), before);
}

#[test]
fn abort_with_several_selections_keeps_the_text_and_mode() {
    let (mut tb, mut fb, ctx) = window("ab\ncd\n");
    tb.handle_action(&ctx, &mut fb, Action::AddSelection);
    assert_eq!(tb.get_selections().len(), 2);
    assert_eq!(tb.handle_action(&ctx, &mut fb, Action::Abort), None);
    assert_eq!(tb.get_selections(), vec![Selection::new(0, 0, 0)]);
    assert_eq!(tb.get_mode(), SelectionMode::Character);
    assert_eq!(fb.get_text(), chars("ab\ncd\n"));
}
