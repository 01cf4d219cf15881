use cmdash::mission_codes::{
    CodelessInfo, CodelessRepoFeature, MissionCode, MissionCodeParseError,
};
use cmdash::remotes::RemoteInfo;

const IDENT: &str = "_infilengine_cm_codeless_";

fn code(tail: &str) -> String {
    format!("{}|{}", IDENT, tail)
}

#[test]
fn full_code_parses_field_by_field() {
    let mc = MissionCode::parse_from(&code("0|1|MissionVersion|file.json|None|origin|payload|x"))
        .unwrap();
    assert_eq!(mc.codeless_fmt_version.version(), 0);
    assert_eq!(mc.codeless_features.len(), 1);
    assert_eq!(
        mc.codeless_features[0],
        CodelessRepoFeature::MissionVersion(0)
    );
    assert_eq!(mc.gist_file, "file.json");
    assert!(mc.gist_url.is_none());
    assert_eq!(mc.gist_remote.as_deref(), Some("origin"));
    assert_eq!(mc.code_data, "payload|x");
}

#[test]
fn url_form_parses_too() {
    let mc =
        MissionCode::parse_from(&code("0|0|f|https://gist.github.com/u/abc|None|data")).unwrap();
    assert_eq!(mc.gist_url.as_deref(), Some("https://gist.github.com/u/abc"));
    assert!(mc.gist_remote.is_none());
    assert_eq!(mc.code_data, "data");
}

#[test]
fn unknown_features_keep_their_names() {
    let mc = MissionCode::parse_from(&code("0|2|MissionVersion|Shiny|f|None|origin|d")).unwrap();
    assert_eq!(
        mc.codeless_features[1],
        CodelessRepoFeature::UnknownFeature(String::from("Shiny"))
    );
    assert_eq!(mc.feature_display(), "MissionVersion, Unknown[Shiny]");
}

#[test]
fn non_code_input_is_rejected() {
    let err = MissionCode::parse_from("hello").unwrap_err();
    assert_eq!(err, MissionCodeParseError::InputWasntCode);
}

#[test]
fn bare_identifier_misses_its_version() {
    let err = MissionCode::parse_from(IDENT).unwrap_err();
    assert_eq!(err, MissionCodeParseError::CodelessVersionMissing);
    let err = MissionCode::parse_from(&code("")).unwrap_err();
    assert_eq!(err, MissionCodeParseError::CodelessVersionMissing);
}

#[test]
fn version_must_be_a_number() {
    let err = MissionCode::parse_from(&code("x|")).unwrap_err();
    assert_eq!(err, MissionCodeParseError::CodelessVersionNotUInt);
}

#[test]
fn unknown_versions_are_reported_with_their_number() {
    let err = MissionCode::parse_from(&code("3|")).unwrap_err();
    assert_eq!(err, MissionCodeParseError::CodelessVersionUnknown(3));
    assert_eq!(err.message(), "input strings version '3' is not supported");
}

#[test]
fn feature_count_must_be_present_and_numeric() {
    let err = MissionCode::parse_from(&code("0|")).unwrap_err();
    assert_eq!(err, MissionCodeParseError::FeatureCountMissing);
    let err = MissionCode::parse_from(&code("0|x|")).unwrap_err();
    assert_eq!(err, MissionCodeParseError::FeatureCountInvalid);
}

#[test]
fn missing_features_are_reported() {
    let err = MissionCode::parse_from(&code("0|2|OnlyOne|")).unwrap_err();
    assert_eq!(err, MissionCodeParseError::FeatureMissing);
}

#[test]
fn gist_elements_must_all_be_present() {
    let err = MissionCode::parse_from(&code("0|0|")).unwrap_err();
    assert_eq!(err, MissionCodeParseError::GistFileMissing);
    let err = MissionCode::parse_from(&code("0|0|file|")).unwrap_err();
    assert_eq!(err, MissionCodeParseError::GistURLMissing);
    let err = MissionCode::parse_from(&code("0|0|file|None|")).unwrap_err();
    assert_eq!(err, MissionCodeParseError::GistRemoteMissing);
}

#[test]
fn exactly_one_of_url_and_remote() {
    let err = MissionCode::parse_from(&code("0|0|f|https://x|origin|d")).unwrap_err();
    assert_eq!(err, MissionCodeParseError::HasBothGistRemoteAndURL);
    let err = MissionCode::parse_from(&code("0|0|f|None|None|d")).unwrap_err();
    assert_eq!(err, MissionCodeParseError::HasNoGistRemoteOrURL);
}

#[test]
fn error_messages_match_their_variants() {
    assert_eq!(
        MissionCodeParseError::InputWasntCode.message(),
        "input string was not valid codeless mission"
    );
    assert_eq!(
        MissionCodeParseError::HasNoGistRemoteOrURL.message(),
        "input string has neither a gist remote or gist URL"
    );
    assert_eq!(
        MissionCodeParseError::FeatureCountInvalid.message(),
        "input string feature count wasn't valid u64"
    );
}

#[test]
fn publish_target_prefers_the_named_remote() {
    let remotes = vec![
        RemoteInfo { name: Some(String::from("origin")), url: Some(String::from("https://a")) },
    ];
    let named = MissionCode::parse_from(&code("0|0|f|None|upstream|d")).unwrap();
    assert_eq!(named.publish_target_remote(&remotes).as_deref(), Some("upstream"));
    let by_url = MissionCode::parse_from(&code("0|0|f|https://a|None|d")).unwrap();
    assert_eq!(by_url.publish_target_remote(&remotes).as_deref(), Some("origin"));
    let unmatched = MissionCode::parse_from(&code("0|0|f|https://zz|None|d")).unwrap();
    assert_eq!(unmatched.publish_target_remote(&remotes), None);
}

#[test]
fn content_links_use_the_raw_host() {
    let link = cmdash::mission_codes::content_link(
        "https://gist.github.com/user/abc///",
        "deadbeef",
        "mission.json",
    );
    assert_eq!(
        link,
        "https://gist.githubusercontent.com/user/abc/raw/deadbeef/mission.json"
    );
    let unchanged = cmdash::mission_codes::content_link("https://example.com/r", "c1", "f");
    assert_eq!(unchanged, "https://example.com/r/raw/c1/f");
}

#[test]
fn codeless_info_splits_off_the_version() {
    let (ci, rest) = CodelessInfo::parse_from("0|a|b").unwrap();
    assert_eq!(ci, CodelessInfo::V0);
    assert_eq!(rest, "a|b");
    assert_eq!(ci.version(), 0);
}

#[test]
fn features_come_from_their_names() {
    assert_eq!(
        CodelessRepoFeature::from_str("MissionVersion"),
        CodelessRepoFeature::MissionVersion(0)
    );
    let f = CodelessRepoFeature::from_str("Odd");
    assert_eq!(f, CodelessRepoFeature::UnknownFeature(String::from("Odd")));
    assert_eq!(f.display_name(), "Unknown[Odd]");
}

#[test]
fn processing_advances_a_tracked_version() {
    let mut f = CodelessRepoFeature::MissionVersion(4);
    f.repo_process();
    assert_eq!(f, CodelessRepoFeature::MissionVersion(5));
    let mut u = CodelessRepoFeature::UnknownFeature(String::from("x"));
    u.repo_process();
    assert_eq!(u, CodelessRepoFeature::UnknownFeature(String::from("x")));
}

#[test]
fn deriving_reads_the_version_file_text() {
    let mut f = CodelessRepoFeature::MissionVersion(0);
    assert!(f.derive_from_text("42").is_ok());
    assert_eq!(f, CodelessRepoFeature::MissionVersion(42));
    assert!(f.derive_from_text("not a number").is_err());
    assert_eq!(f, CodelessRepoFeature::MissionVersion(42));
}

#[test]
fn publish_message_names_the_tracked_version() {
    let mc = MissionCode::parse_from(&code("0|1|MissionVersion|f|None|origin|d")).unwrap();
    let mut mc = mc;
    mc.codeless_features[0] = CodelessRepoFeature::MissionVersion(7);
    assert_eq!(mc.publish_message(), "Update To Newest Version - v7");
    assert_eq!(mc.publish_target_file(), "f");
    mc.codeless_features.clear();
    assert_eq!(mc.publish_message(), "Update To Newest Version - Untracked");
}
