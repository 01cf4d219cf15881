use cmdash::input::Input;
use cmdash::keys::{Key, RequestMode};
use cmdash::log::Log;
use cmdash::manager::Manager;
use cmdash::render::Renderer;

#[test]
fn eighty_columns_split_evenly_across_two_logs() {
    let widths = Renderer.log_widths(2, 80);
    assert_eq!(widths, vec![40, 40]);
}

#[test]
fn eighty_one_columns_give_the_remainder_to_the_first_log() {
    let widths = Renderer.log_widths(2, 81);
    assert_eq!(widths, vec![41, 40]);
}

#[test]
fn remainder_columns_go_left_to_right() {
    let widths = Renderer.log_widths(3, 11);
    assert_eq!(widths, vec![4, 4, 3]);
}

#[test]
fn idle_frame_hides_the_cursor() {
    console::set_colors_enabled(false);
    console::set_colors_enabled_stderr(false);
    let man = Manager::new();
    let logs = man.get_log_bufs();
    let frame = Renderer.render(10, 80, &logs, man.get_input_handler());
    assert!(frame.cursor.is_none());
    assert!(frame.text.contains(" Main Thread Log "));
    assert!(frame.text.contains(" Server Thread Log "));
    assert!(frame.text.contains(" Input "));
    // Header, footer, and two newlines inside the input box.
    assert_eq!(frame.text.matches('\n').count(), 4);
}

#[test]
fn five_rows_leave_no_content_but_still_render() {
    // The smallest accepted terminal: header, footer, and the three-row
    // input box, with zero content rows in between.
    console::set_colors_enabled(false);
    console::set_colors_enabled_stderr(false);
    let man = Manager::new();
    let logs = man.get_log_bufs();
    let frame = Renderer.render(5, 80, &logs, man.get_input_handler());
    assert_eq!(frame.text.matches('\n').count(), 4);
    assert!(frame.text.contains(" Main Thread Log "));
    assert!(frame.text.contains("////"));
    assert!(frame.cursor.is_none());
}

#[test]
fn active_request_places_the_cursor_after_the_typed_text() {
    console::set_colors_enabled(false);
    console::set_colors_enabled_stderr(false);
    let mut man = Manager::new();
    man.term_input_lowp.begin_request("main", "Name: ", RequestMode::Line);
    man.term_input_lowp.deliver(Key::Char('a'));
    man.term_input_lowp.step();
    let frame = {
        let logs = man.get_log_bufs();
        Renderer.render(12, 80, &logs, man.get_input_handler())
    };
    // column = cursor offset (1) + 2 + prompt length (6), row = rows - 2.
    assert_eq!(frame.cursor, Some((9, 10)));
    assert!(frame.text.contains(" Input (main) "));
    assert!(frame.text.contains("Name: a"));
}

#[test]
fn frame_shows_recent_log_lines() {
    console::set_colors_enabled(false);
    console::set_colors_enabled_stderr(false);
    let mut log = Log::new("Only");
    log.log("visible line");
    let input = Input::new();
    let logs = vec![&log];
    let frame = Renderer.render(10, 60, &logs, &input);
    assert!(frame.text.contains("   INFO: visible line"));
    assert!(frame.text.contains("│"));
    assert!(frame.text.contains("╭"));
    assert!(frame.text.contains("╰"));
}

#[test]
fn a_fresh_dashboard_is_idle_with_its_two_logs() {
    let man = Manager::new();
    assert_eq!(man.main_log.name(), "Main Thread");
    assert_eq!(man.server_log.name(), "Server Thread");
    assert!(!man.term_input_lowp.is_inputting());
    assert!(!man.term_input_highp.is_inputting());
    assert!(!man.term_input_lowp.is_disabled());
    assert!(!man.term_input_highp.is_disabled());
}

#[test]
fn high_priority_request_disables_low_priority_until_done() {
    // While the high-priority channel is requesting, the next render pass
    // must see the low-priority channel disabled; after the request
    // completes, the next pass re-enables it.
    let mut man = Manager::new();
    man.term_input_highp.begin_request("server", "> ", RequestMode::Line);
    man.pre_render_arbitrate();
    assert!(man.term_input_lowp.is_disabled());
    man.term_input_highp.deliver(Key::Enter);
    man.term_input_highp.step();
    man.pre_render_arbitrate();
    assert!(!man.term_input_lowp.is_disabled());
}

#[test]
fn active_high_priority_channel_is_the_rendered_one() {
    let mut man = Manager::new();
    man.term_input_highp.begin_request("server", "> ", RequestMode::Line);
    assert!(man.get_input_handler().is_inputting());
    let shown: String = man.get_input_handler().requester_chars().iter().collect();
    assert_eq!(shown, "server");
}
