use phunk::text::{file_name_for, slug_of, strip_quotes};

#[test]
fn slug_strips_prefix_and_slashes() {
    assert_eq!(slug_of("/macos/appA/"), "appA");
    assert_eq!(slug_of("/macos/some-app"), "some-app");
}

#[test]
fn slug_of_root_path_is_empty() {
    assert_eq!(slug_of("/macos/"), "");
}

#[test]
fn slug_without_prefix_only_drops_slashes() {
    assert_eq!(slug_of("/other/x/"), "otherx");
    assert_eq!(slug_of("plain"), "plain");
}

#[test]
fn quotes_are_stripped_everywhere() {
    assert_eq!(strip_quotes("\"https://cdn/x.zip\""), "https://cdn/x.zip");
    assert_eq!(strip_quotes("https://cdn/x.zip"), "https://cdn/x.zip");
    assert_eq!(strip_quotes("a\"b\"c"), "abc");
}

#[test]
fn file_name_is_last_segment() {
    assert_eq!(file_name_for("/files/builds/app-1.2.dmg"), "app-1.2.dmg");
    assert_eq!(file_name_for("x.zip"), "x.zip");
}

#[test]
fn file_name_falls_back_when_segment_empty() {
    assert_eq!(file_name_for("/files/builds/"), "phunk.zip");
    assert_eq!(file_name_for(""), "phunk.zip");
    assert_eq!(file_name_for("/"), "phunk.zip");
}

#[test]
fn greeting_names_the_caller() {
    assert_eq!(
        phunk::greet("Ada"),
        "Hello, Ada! You've been greeted from Rust!"
    );
}
