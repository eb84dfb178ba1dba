use downloader::downloader::file_name_from_url;
use downloader::downloader::Downloader;
use downloader::transfer::Action;
use downloader::transfer::Phase;
use tokio_util::sync::CancellationToken;

#[test]
fn file_name_is_what_follows_the_last_slash() {
    assert_eq!(file_name_from_url("https://example.com/a/b.zip"), "b.zip");
    assert_eq!(file_name_from_url("/tmp/out/file.bin"), "file.bin");
    assert_eq!(file_name_from_url("a/b"), "b");
}

#[test]
fn file_name_without_a_slash_is_the_whole_text() {
    assert_eq!(file_name_from_url("file.bin"), "file.bin");
    assert_eq!(file_name_from_url(""), "");
}

#[test]
fn file_name_behind_a_final_slash_is_empty() {
    assert_eq!(file_name_from_url("https://example.com/"), "");
    assert_eq!(file_name_from_url("/"), "");
    assert_eq!(file_name_from_url("a//"), "");
}

#[test]
fn file_name_may_hold_any_character() {
    assert_eq!(file_name_from_url("https://ex/ü/日本.bin"), "日本.bin");
    assert_eq!(file_name_from_url("日本/ü"), "ü");
    assert_eq!(file_name_from_url("a\\b/c d?e=f#g"), "c d?e=f#g");
}

#[test]
fn file_name_agrees_with_split() {
    for text in ["", "/", "a", "a/", "/a", "a/b/c", "//", "x/y/", "ü/é/", "é/ü"] {
        assert_eq!(file_name_from_url(text), text.split('/').last().unwrap_or(text));
    }
}

#[test]
fn new_downloader_is_empty() {
    let downloader = Downloader::new();
    assert_eq!(downloader.url(), "");
    assert_eq!(downloader.output_path(), "");
}

#[test]
fn url_gives_the_output_path_where_none_is_set() {
    let downloader = Downloader::new().with_url("https://example.com/a/b.zip".to_string());
    assert_eq!(downloader.url(), "https://example.com/a/b.zip");
    assert_eq!(downloader.output_path(), "b.zip");
}

#[test]
fn url_leaves_an_output_path_that_is_set() {
    let downloader = Downloader::new()
        .with_output_path("/tmp/out.bin".to_string())
        .with_url("https://example.com/a/b.zip".to_string());
    assert_eq!(downloader.url(), "https://example.com/a/b.zip");
    assert_eq!(downloader.output_path(), "/tmp/out.bin");
}

#[test]
fn output_path_replaces_the_one_from_the_url() {
    let downloader = Downloader::new()
        .with_url("https://example.com/a/b.zip".to_string())
        .with_output_path("c.zip".to_string());
    assert_eq!(downloader.output_path(), "c.zip");
    assert_eq!(downloader.url(), "https://example.com/a/b.zip");
}

#[test]
fn second_url_keeps_the_first_output_path() {
    let downloader = Downloader::new()
        .with_url("https://example.com/one.bin".to_string())
        .with_url("https://example.com/two.bin".to_string());
    assert_eq!(downloader.url(), "https://example.com/two.bin");
    assert_eq!(downloader.output_path(), "one.bin");
}

#[test]
fn url_that_ends_in_a_slash_gives_no_output_path() {
    let downloader = Downloader::new().with_url("https://example.com/".to_string());
    assert_eq!(downloader.output_path(), "");
}

#[test]
fn token_does_not_touch_url_and_path() {
    let downloader = Downloader::new()
        .with_url("https://example.com/a.bin".to_string())
        .with_token(CancellationToken::new());
    assert_eq!(downloader.url(), "https://example.com/a.bin");
    assert_eq!(downloader.output_path(), "a.bin");
}

#[test]
fn download_begins_by_inspecting() {
    let downloader = Downloader::new()
        .with_url("https://example.com/a.bin".to_string())
        .with_output_path("/tmp/a.bin".to_string());
    let (transfer, action) = downloader.download();
    assert!(matches!(action, Action::Inspect));
    assert_eq!(transfer.source_url(), "https://example.com/a.bin");
    assert_eq!(transfer.output_path(), "/tmp/a.bin");
    let state = transfer.state();
    assert_eq!(state.phase, Phase::Inspecting);
    assert_eq!(state.downloaded_bytes, 0);
    assert_eq!(state.total_bytes, 0);
}
