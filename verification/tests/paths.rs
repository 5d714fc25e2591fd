use upload_core::paths::sanitize_path_segment;
use upload_core::paths::save_path;
use upload_core::paths::web_path;

#[test]
fn sanitize_replaces_spaces() {
    assert_eq!(sanitize_path_segment("My Dir"), "My_Dir");
    assert_eq!(sanitize_path_segment("a b c"), "a_b_c");
}

#[test]
fn sanitize_keeps_other_characters() {
    assert_eq!(sanitize_path_segment("assets-01"), "assets-01");
    assert_eq!(sanitize_path_segment(""), "");
}

#[test]
fn sanitize_twice_equals_once() {
    let once = sanitize_path_segment("My Dir With Spaces");
    let twice = sanitize_path_segment(once.as_str());
    assert_eq!(twice, once);
}

#[test]
fn web_path_joins_sanitized_directory_and_name() {
    assert_eq!(web_path("My Dir", "A"), "My_Dir/A");
    assert_eq!(web_path("assets", "0.png"), "assets/0.png");
}

#[test]
fn save_path_prefixes_storage_root() {
    assert_eq!(save_path("My Dir", "A"), "/storage/My_Dir/A");
    assert_eq!(save_path("assets", "0.json"), "/storage/assets/0.json");
}
