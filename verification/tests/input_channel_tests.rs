use cmdash::input::{Input, StepOutcome};
use cmdash::keys::{Key, RequestMode};

fn text_of(chars: &Vec<char>) -> String {
    chars.iter().collect()
}

fn feed(input: &mut Input, key: Key) -> StepOutcome {
    input.deliver(key);
    input.step()
}

#[test]
fn secret_mode_masks_display_and_keeps_secret() {
    // Typing a, b, c then one backspace: the visible buffer is two mask
    // characters, the retained secret is "ab".
    let mut input = Input::new();
    input.begin_request("tester", "pw: ", RequestMode::Secret);
    feed(&mut input, Key::Char('a'));
    feed(&mut input, Key::Char('b'));
    feed(&mut input, Key::Char('c'));
    feed(&mut input, Key::Backspace);
    assert_eq!(text_of(input.buffer_chars()), "**");
    assert_eq!(text_of(input.secret_chars()), "ab");
}

#[test]
fn request_line_collects_typed_text() {
    // requestLine("Name: ") with keys a, b, backspace, c, enter yields "ac".
    let mut input = Input::new();
    let keys = vec![
        Key::Char('a'),
        Key::Char('b'),
        Key::Backspace,
        Key::Char('c'),
        Key::Enter,
    ];
    let result = input.run_request("main", "Name: ", RequestMode::Line, &keys);
    assert_eq!(result.as_deref(), Some("ac"));
    assert!(!input.is_inputting());
}

#[test]
fn request_string_and_password_use_their_modes() {
    let mut input = Input::new();
    let keys = vec![Key::Char('h'), Key::Char('i'), Key::Enter];
    let line = input.request_string("main", "> ", &keys);
    assert_eq!(line.as_deref(), Some("hi"));

    let keys = vec![Key::Char('p'), Key::Char('w'), Key::Enter];
    let secret = input.request_password("main", "pw: ", &keys);
    assert_eq!(secret.as_deref(), Some("pw"));
    // The display only ever held mask characters.
    let shown: String = input.buffer_chars().iter().collect();
    assert_eq!(shown, "**");
}

#[test]
fn wait_for_enter_returns_nothing_and_needs_enter() {
    let mut input = Input::new();
    let keys = vec![Key::Char('x')];
    assert_eq!(input.wait_for_enter("main", "ok?", &keys), None);
    assert!(input.is_inputting());
    let mut input = Input::new();
    let keys = vec![Key::Char('x'), Key::Enter];
    assert_eq!(input.wait_for_enter("main", "ok?", &keys).as_deref(), Some(""));
}

#[test]
fn stale_keys_are_drained_before_a_request() {
    // Keys queued before the request begins never reach its result.
    let mut input = Input::new();
    input.deliver(Key::Char('x'));
    input.deliver(Key::Char('y'));
    input.begin_request("main", "> ", RequestMode::Line);
    assert_eq!(feed(&mut input, Key::Char('a')), StepOutcome::Consumed);
    assert_eq!(feed(&mut input, Key::Char('b')), StepOutcome::Consumed);
    assert_eq!(feed(&mut input, Key::Enter), StepOutcome::Completed);
    assert_eq!(input.result_text(), "ab");
}

#[test]
fn acknowledgement_ignores_everything_but_enter() {
    let mut input = Input::new();
    input.begin_request("main", "Press ENTER", RequestMode::Acknowledge);
    assert_eq!(feed(&mut input, Key::Char('z')), StepOutcome::Consumed);
    assert_eq!(feed(&mut input, Key::Backspace), StepOutcome::Consumed);
    assert_eq!(feed(&mut input, Key::Other), StepOutcome::Consumed);
    assert_eq!(text_of(input.buffer_chars()), "");
    assert_eq!(feed(&mut input, Key::Enter), StepOutcome::Completed);
    assert_eq!(input.result_text(), "");
}

#[test]
fn disabled_channel_discards_deliveries() {
    let mut input = Input::new();
    input.begin_request("main", "> ", RequestMode::Line);
    input.set_disabled(true);
    input.deliver(Key::Char('a'));
    assert_eq!(input.step(), StepOutcome::NoKey);
    input.set_disabled(false);
    // The discarded key is gone for good.
    assert_eq!(input.step(), StepOutcome::NoKey);
    assert_eq!(feed(&mut input, Key::Char('b')), StepOutcome::Consumed);
    assert_eq!(feed(&mut input, Key::Enter), StepOutcome::Completed);
    assert_eq!(input.result_text(), "b");
}

#[test]
fn backspace_on_empty_buffer_changes_nothing() {
    let mut input = Input::new();
    input.begin_request("main", "> ", RequestMode::Line);
    feed(&mut input, Key::Backspace);
    assert_eq!(text_of(input.buffer_chars()), "");
    assert_eq!(input.cursor_pos(), 0);
}

#[test]
fn flags_start_clear_and_toggle() {
    let mut input = Input::new();
    assert!(!input.is_inputting());
    assert!(!input.is_disabled());
    input.set_inputting(true);
    assert!(input.is_inputting());
    input.set_inputting(false);
    input.set_disabled(true);
    assert!(input.is_disabled());
}

#[test]
fn cursor_tracks_typed_characters() {
    let mut input = Input::new();
    input.begin_request("main", "> ", RequestMode::Line);
    feed(&mut input, Key::Char('h'));
    feed(&mut input, Key::Char('i'));
    assert_eq!(input.cursor_pos(), 2);
    feed(&mut input, Key::Backspace);
    assert_eq!(input.cursor_pos(), 1);
}
