use poet::action::Action;
use poet::context::TextbufferContext;
use poet::filebuffer::Filebuffer;
use poet::selection::{Selection, SelectionMode};
use poet::textbuffer::info::LineInfo;
use poet::textbuffer::Textbuffer;

fn chars(s: &str) -> Vec<char> {
    s.chars().collect()
}

fn window(text: &str) -> (Textbuffer, Filebuffer, TextbufferContext) {
    let filebuffer = Filebuffer::new(chars(text));
    let context = TextbufferContext::from();
    let mut textbuffer = Textbuffer::new(0, '\n');
    textbuffer.update_layout(&context, &filebuffer, 10);
    (textbuffer, filebuffer, context)
}

#[test]
fn moving_right_then_down_keeps_the_column() {
    let (mut tb, mut fb, ctx) = window("hello\nworld\n");
    assert_eq!(tb.handle_action(&ctx, &mut fb, Action::Right), None);
    assert_eq!(tb.get_selections(), vec![Selection::new(1, 1, 1)]);
    assert_eq!(tb.handle_action(&ctx, &mut fb, Action::Down), None);
    assert_eq!(tb.get_selections(), vec![Selection::new(7, 7, 1)]);
    assert_eq!(tb.handle_action(&ctx, &mut fb, Action::Up), None);
    assert_eq!(tb.get_selections(), vec![Selection::new(1, 1, 1)]);
    assert_eq!(fb.get_text(), chars("hello\nworld\n"));
}

#[test]
fn moving_left_at_the_start_stays() {
    let (mut tb, mut fb, ctx) = window("ab\n");
    assert_eq!(tb.handle_action(&ctx, &mut fb, Action::Left), None);
    assert_eq!(tb.get_selections(), vec![Selection::new(0, 0, 0)]);
}

#[test]
fn typing_then_removing_gives_the_text_back() {
    let (mut tb, mut fb, ctx) = window("hello\nworld\n");
    tb.add_character(&ctx, &mut fb, 'x');
    assert_eq!(fb.get_text(), chars("xhello\nworld\n"));
    assert_eq!(tb.get_selections(), vec![Selection::new(1, 1, 1)]);
    assert_eq!(tb.handle_action(&ctx, &mut fb, Action::Remove), None);
    assert_eq!(fb.get_text(), chars("hello\nworld\n"));
    assert_eq!(tb.get_selections(), vec![Selection::new(0, 0, 0)]);
}

#[test]
fn delete_takes_the_character_under_the_cursor() {
    let (mut tb, mut fb, ctx) = window("hello\n");
    assert_eq!(tb.handle_action(&ctx, &mut fb, Action::Delete), None);
    assert_eq!(fb.get_text(), chars("ello\n"));
    assert_eq!(tb.get_selections(), vec![Selection::new(0, 0, 0)]);
}

#[test]
fn delete_at_the_last_character_does_nothing() {
    let (mut tb, mut fb, ctx) = window("a\n");
    tb.handle_action(&ctx, &mut fb, Action::Right);
    assert_eq!(tb.get_selections(), vec![Selection::new(1, 1, 1)]);
    tb.handle_action(&ctx, &mut fb, Action::Delete);
    assert_eq!(fb.get_text(), chars("a\n"));
}

#[test]
fn removing_the_last_characters_keeps_the_padding() {
    let (mut tb, mut fb, ctx) = window("ab\n");
    tb.handle_action(&ctx, &mut fb, Action::ExtendRight);
    tb.handle_action(&ctx, &mut fb, Action::ExtendRight);
    assert_eq!(tb.get_selections(), vec![Selection::new(2, 0, 2)]);
    tb.handle_action(&ctx, &mut fb, Action::Remove);
    assert_eq!(fb.get_text(), chars("\n"));
    assert_eq!(tb.get_selections(), vec![Selection::new(0, 0, 0)]);
}

#[test]
fn delete_line_takes_the_whole_line() {
    let (mut tb, mut fb, ctx) = window("ab\ncd\n");
    assert_eq!(tb.handle_action(&ctx, &mut fb, Action::DeleteLine), None);
    assert_eq!(fb.get_text(), chars("cd\n"));
    assert_eq!(tb.get_selections(), vec![Selection::new(0, 0, 0)]);
}

#[test]
fn newline_down_opens_a_line_below() {
    let (mut tb, mut fb, ctx) = window("ab\n");
    assert_eq!(tb.handle_action(&ctx, &mut fb, Action::NewlineDown), None);
    assert_eq!(fb.get_text(), chars("ab\n\n"));
    assert_eq!(tb.get_selections(), vec![Selection::new(3, 3, 0)]);
}

#[test]
fn newline_up_opens_a_line_above() {
    let (mut tb, mut fb, ctx) = window("ab\n");
    tb.handle_action(&ctx, &mut fb, Action::Right);
    assert_eq!(tb.handle_action(&ctx, &mut fb, Action::NewlineUp), None);
    assert_eq!(fb.get_text(), chars("\nab\n"));
    assert_eq!(tb.get_selections(), vec![Selection::new(0, 0, 0)]);
}

#[test]
fn select_next_adds_the_next_occurrence() {
    let (mut tb, mut fb, ctx) = window("ab ab\n");
    tb.handle_action(&ctx, &mut fb, Action::ExtendRight);
    assert_eq!(tb.get_selections(), vec![Selection::new(1, 0, 1)]);
    assert_eq!(tb.handle_action(&ctx, &mut fb, Action::SelectNext), None);
    assert_eq!(tb.get_selections(), vec![Selection::new(1, 0, 1), Selection::new(3, 4, 3)]);
}

#[test]
fn adding_a_selection_then_moving_moves_only_it() {
    let (mut tb, mut fb, ctx) = window("ab\ncd\n");
    assert_eq!(tb.handle_action(&ctx, &mut fb, Action::AddSelection), None);
    assert!(tb.is_adding_selection());
    assert_eq!(tb.get_selections(), vec![Selection::new(0, 0, 0), Selection::new(1, 1, 1)]);
    tb.handle_action(&ctx, &mut fb, Action::Right);
    assert_eq!(tb.get_selections(), vec![Selection::new(0, 0, 0), Selection::new(2, 2, 2)]);
    assert_eq!(tb.handle_action(&ctx, &mut fb, Action::Confirm), None);
    assert!(!tb.is_adding_selection());
    assert_eq!(tb.handle_action(&ctx, &mut fb, Action::Confirm), Some(Action::Confirm));
}

#[test]
fn abort_drops_extra_selections_then_passes_on() {
    let (mut tb, mut fb, ctx) = window("ab\n");
    tb.handle_action(&ctx, &mut fb, Action::AddSelection);
    assert_eq!(tb.handle_action(&ctx, &mut fb, Action::Abort), None);
    assert_eq!(tb.get_selections(), vec![Selection::new(0, 0, 0)]);
    assert_eq!(tb.handle_action(&ctx, &mut fb, Action::Abort), Some(Action::Abort));
}

#[test]
fn unhandled_actions_are_passed_on_unchanged() {
    let (mut tb, mut fb, ctx) = window("ab\n");
    assert_eq!(tb.handle_action(&ctx, &mut fb, Action::Quit), Some(Action::Quit));
    assert_eq!(tb.handle_action(&ctx, &mut fb, Action::TokenMode), Some(Action::TokenMode));
    assert_eq!(tb.get_selections(), vec![Selection::new(0, 0, 0)]);
    assert_eq!(fb.get_text(), chars("ab\n"));
}

#[test]
fn rotate_swaps_the_selected_texts() {
    let (mut tb, mut fb, ctx) = window("a b\n");
    tb.handle_action(&ctx, &mut fb, Action::AddSelection);
    tb.handle_action(&ctx, &mut fb, Action::Right);
    tb.handle_action(&ctx, &mut fb, Action::Confirm);
    assert_eq!(tb.get_selections(), vec![Selection::new(0, 0, 0), Selection::new(2, 2, 2)]);
    assert_eq!(tb.handle_action(&ctx, &mut fb, Action::Rotate), None);
    assert_eq!(fb.get_text(), chars("b a\n"));
}

#[test]
fn line_mode_selects_whole_lines() {
    let (mut tb, mut fb, ctx) = window("ab\ncd\n");
    assert_eq!(tb.handle_action(&ctx, &mut fb, Action::LineMode), None);
    assert_eq!(tb.get_mode(), SelectionMode::Line);
    assert_eq!(tb.get_selections(), vec![Selection::new(2, 0, 0)]);
    assert_eq!(tb.handle_action(&ctx, &mut fb, Action::CharacterMode), None);
    assert_eq!(tb.get_mode(), SelectionMode::Character);
}

#[test]
fn duplicate_down_adds_a_cursor_on_the_next_line() {
    let (mut tb, mut fb, ctx) = window("ab\ncd\n");
    tb.handle_action(&ctx, &mut fb, Action::Right);
    assert_eq!(tb.handle_action(&ctx, &mut fb, Action::DuplicateDown), None);
    assert_eq!(tb.get_selections(), vec![Selection::new(1, 1, 1), Selection::new(4, 4, 1)]);
}

#[test]
fn line_info_lists_the_shown_lines() {
    let (tb, fb, ctx) = window("ab\ncd\n");
    let lines = tb.line_info(&ctx, &fb);
    assert_eq!(lines.len(), 2);
    assert_eq!(lines[0], LineInfo { number: 1, index: 0, length: 2, highlighted: true });
    assert_eq!(lines[1], LineInfo { number: 2, index: 3, length: 2, highlighted: false });
}

#[test]
fn line_info_numbers_relative_to_the_cursor() {
    let (mut tb, mut fb, mut ctx) = window("ab\ncd\nef\n");
    ctx.relative_line_numbers = true;
    tb.handle_action(&ctx, &mut fb, Action::Down);
    let lines = tb.line_info(&ctx, &fb);
    assert_eq!(lines.len(), 3);
    assert_eq!(lines[0].number, 1);
    assert!(lines[1].highlighted);
    assert_eq!(lines[1].number, 2);
    assert_eq!(lines[2].number, 1);
}

#[test]
fn jump_to_index_leaves_one_cursor() {
    let (mut tb, mut fb, ctx) = window("ab\ncd\n");
    tb.handle_action(&ctx, &mut fb, Action::AddSelection);
    tb.jump_to_index(&ctx, &mut fb, 4);
    assert_eq!(tb.get_selections(), vec![Selection::new(4, 4, 1)]);
    assert!(!tb.is_adding_selection());
}

#[test]
fn select_last_character_goes_to_the_end_of_the_line() {
    let (mut tb, mut fb, _ctx) = window("abc\nd\n");
    tb.select_last_character(&mut fb);
    assert_eq!(tb.get_selections(), vec![Selection::new(3, 3, 3)]);
}

#[test]
fn set_text_resets_the_window() {
    let (mut tb, mut fb, ctx) = window("ab\n");
    tb.handle_action(&ctx, &mut fb, Action::Right);
    tb.set_text(&mut fb, chars("xyz\n"));
    assert_eq!(fb.get_text(), chars("xyz\n"));
    assert_eq!(tb.get_selections(), vec![Selection::new(0, 0, 0)]);
    assert_eq!(tb.get_vertical_scroll(), 0);
}

#[test]
fn another_window_typing_moves_the_selections_on_catch_up() {
    let mut fb = Filebuffer::new(chars("ab\n"));
    let ctx = TextbufferContext::from();
    let mut first = Textbuffer::new(1, '\n');
    let mut second = Textbuffer::new(2, '\n');
    second.update_layout(&ctx, &fb, 10);
    second.jump_to_index(&ctx, &mut fb, 1);
    assert_eq!(second.get_selections(), vec![Selection::new(1, 1, 1)]);
    first.add_character(&ctx, &mut fb, 'x');
    assert_eq!(fb.get_text(), chars("xab\n"));
    assert!(second.history_catch_up(&ctx, &mut fb));
    assert_eq!(second.get_selections(), vec![Selection::new(2, 2, 1)]);
    assert!(!second.history_catch_up(&ctx, &mut fb));
}

#[test]
fn undo_then_redo_in_a_window() {
    let (mut tb, mut fb, ctx) = window("ab\n");
    tb.add_character(&ctx, &mut fb, 'x');
    assert_eq!(fb.get_text(), chars("xab\n"));
    assert_eq!(tb.handle_action(&ctx, &mut fb, Action::Undo), None);
    assert_eq!(fb.get_text(), chars("ab\n"));
    assert_eq!(tb.handle_action(&ctx, &mut fb, Action::Redo), None);
    assert_eq!(fb.get_text(), chars("xab\n"));
}

#[test]
fn scrolling_follows_the_cursor() {
    let (mut tb, mut fb, ctx) = window("a\nb\nc\nd\ne\nf\ng\nh\ni\nj\nk\nl\nm\nn\no\np\nq\nr\ns\nt\nu\n");
    tb.update_layout(&ctx, &fb, 4);
    for _ in 0..10 {
        tb.handle_action(&ctx, &mut fb, Action::Down);
    }
    assert_eq!(tb.get_selections()[0].primary_index, 20);
    let scroll = tb.get_vertical_scroll();
    assert!(scroll <= 10 && 10 < scroll + 4);
}
