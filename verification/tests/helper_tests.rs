use cmdash::numbers;
use cmdash::program_info::{ProgramArgs, chosen_repo_path, is_exit_input};
use cmdash::remotes::{self, RemoteInfo};
use cmdash::server::{classify_request, gist_url_display, RequestDecision};
use cmdash::style;
use cmdash::text;

fn chars(s: &str) -> Vec<char> {
    s.chars().collect()
}

#[test]
fn decimal_parsing_accepts_digits_and_one_plus() {
    assert_eq!(numbers::parse_decimal(&chars("123")), Some(123));
    assert_eq!(numbers::parse_decimal(&chars("+42")), Some(42));
    assert_eq!(numbers::parse_decimal(&chars("0")), Some(0));
    assert_eq!(numbers::parse_decimal(&chars("")), None);
    assert_eq!(numbers::parse_decimal(&chars("+")), None);
    assert_eq!(numbers::parse_decimal(&chars("12a")), None);
    assert_eq!(numbers::parse_decimal(&chars("-3")), None);
    assert_eq!(numbers::parse_decimal(&chars("99999999999999999999999")), None);
}

#[test]
fn decimal_printing_is_exact() {
    assert_eq!(numbers::u64_to_string(0), "0");
    assert_eq!(numbers::u64_to_string(7), "7");
    assert_eq!(numbers::u64_to_string(1234567), "1234567");
    assert_eq!(numbers::u64_to_string(u64::MAX), "18446744073709551615");
}

#[test]
fn printing_then_parsing_round_trips() {
    for v in [0u64, 1, 9, 10, 255, 47362, u64::MAX] {
        let s = numbers::u64_to_string(v);
        let parsed = numbers::parse_decimal(&s.chars().collect());
        assert_eq!(parsed, Some(v as usize));
    }
}

#[test]
fn the_largest_value_still_parses() {
    assert_eq!(
        numbers::parse_decimal(&chars("18446744073709551615")),
        Some(usize::MAX)
    );
    assert_eq!(numbers::parse_decimal(&chars("18446744073709551616")), None);
}

#[test]
fn padding_fills_and_truncates() {
    assert_eq!(style::string_to_len("ab", 5, '-'), "ab---");
    assert_eq!(style::string_to_len("ab", 2, ' '), "ab");
    assert_eq!(style::string_to_len("abcdef", 4, ' '), "a...");
    assert_eq!(style::string_to_len("", 3, '/'), "///");
}

#[test]
fn tabs_expand_to_two_spaces() {
    let out = text::tab_expand(&chars("a\tb\t"));
    let s: String = out.iter().collect();
    assert_eq!(s, "a  b  ");
}

#[test]
fn line_splitting_matches_the_line_rules() {
    let as_strings = |v: Vec<Vec<char>>| -> Vec<String> {
        v.into_iter().map(|l| l.iter().collect()).collect()
    };
    assert_eq!(as_strings(text::lines_of(&chars("a\nb"))), vec!["a", "b"]);
    assert_eq!(as_strings(text::lines_of(&chars("a\r\nb\n"))), vec!["a", "b"]);
    assert_eq!(as_strings(text::lines_of(&chars(""))), Vec::<String>::new());
    assert_eq!(as_strings(text::lines_of(&chars("one"))), vec!["one"]);
}

#[test]
fn only_posts_to_the_publish_endpoint_proceed() {
    assert_eq!(
        classify_request("/publish_codeless", "POST"),
        RequestDecision::Proceed
    );
    assert_eq!(
        classify_request("/publish_codeless", "GET"),
        RequestDecision::WrongMethod
    );
    assert_eq!(
        classify_request("/other", "POST"),
        RequestDecision::WrongEndpoint
    );
}

#[test]
fn hidden_urls_are_fully_masked() {
    assert_eq!(gist_url_display("https://x", true), "*********");
    assert_eq!(gist_url_display("https://x", false), "https://x");
}

#[test]
fn remote_lookups_find_the_first_match() {
    let names = vec![String::from("origin"), String::from("fork")];
    assert!(remotes::has_remote(&names, "fork"));
    assert!(!remotes::has_remote(&names, "upstream"));

    let urls = vec![String::from("https://a"), String::from("https://b")];
    assert!(remotes::has_remote_url(&urls, "https://b"));
    assert!(!remotes::has_remote_url(&urls, "https://c"));

    let rs = vec![
        RemoteInfo { name: Some(String::from("origin")), url: Some(String::from("https://a")) },
        RemoteInfo { name: Some(String::from("fork")), url: Some(String::from("https://b")) },
        RemoteInfo { name: None, url: Some(String::from("https://c")) },
    ];
    assert_eq!(
        remotes::remote_name_from_url(&rs, "https://b").as_deref(),
        Some("fork")
    );
    assert_eq!(remotes::remote_name_from_url(&rs, "https://c"), None);
    assert_eq!(remotes::remote_name_from_url(&rs, "https://z"), None);
    assert_eq!(
        remotes::remote_url_from_name(&rs, "origin").as_deref(),
        Some("https://a")
    );
    assert_eq!(remotes::remote_url_from_name(&rs, "missing"), None);
}

#[test]
fn default_arguments_match_the_documented_values() {
    let args = ProgramArgs::with_defaults(None);
    assert_eq!(args.port, 47362);
    assert_eq!(args.terminal_redraw_delay, 250);
    assert!(!args.no_interactivity);
    assert!(!args.hide_url);
    assert!(args.needs_repo_prompt());
    assert!(!args.needs_cwd_fallback());

    let mut quiet = ProgramArgs::with_defaults(None);
    quiet.no_interactivity = true;
    assert!(!quiet.needs_repo_prompt());
    assert!(quiet.needs_cwd_fallback());

    let given = ProgramArgs::with_defaults(Some(String::from("/repo")));
    assert!(!given.needs_repo_prompt());
    assert!(!given.needs_cwd_fallback());
}

#[test]
fn the_exit_word_cancels_in_any_case() {
    assert!(is_exit_input("exit"));
    assert!(is_exit_input("EXIT"));
    assert!(is_exit_input("Exit"));
    assert!(!is_exit_input("quit"));
    assert_eq!(chosen_repo_path("Exit"), None);
    assert_eq!(chosen_repo_path("/some/repo").as_deref(), Some("/some/repo"));
}
