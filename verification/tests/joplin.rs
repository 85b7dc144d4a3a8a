use joplin_dictate::folders::sort_folders;
use joplin_dictate::install::{flatpak_lists_joplin, is_joplin_appimage};
use joplin_dictate::joplin::{
    api_url, check_ping_reply, joplin_host_setting, ping_url, token_from_settings, token_setting,
    usable_token, ReadyError,
};
use joplin_dictate::{Config, Folder};
use std::path::PathBuf;

fn config(host: &str, token: &str) -> Config {
    Config {
        whisper_dir: PathBuf::from("/w"),
        whisper_model: PathBuf::from("/w/models/ggml-base.en.bin"),
        whisper_bin: PathBuf::from("/w/build/bin/whisper-cli"),
        joplin_host: host.to_string(),
        joplin_token: token.to_string(),
    }
}

#[test]
fn api_url_joins_host_path_and_encoded_token() {
    let c = config("http://127.0.0.1:41184//", "a b/ü~x");
    assert_eq!(
        api_url(&c, "//notes"),
        "http://127.0.0.1:41184/notes?token=a%20b%2F%C3%BC~x"
    );
    assert_eq!(
        api_url(&config("http://h", "tok"), "folders"),
        "http://h/folders?token=tok"
    );
}

#[test]
fn ping_url_drops_trailing_slashes() {
    assert_eq!(ping_url(&config("http://127.0.0.1:41184/", "t")), "http://127.0.0.1:41184/ping");
    assert_eq!(ping_url(&config("http://h", "t")), "http://h/ping");
}

#[test]
fn ping_reply_must_name_the_clipper() {
    assert_eq!(check_ping_reply("JoplinClipperServer"), Ok(()));
    assert_eq!(check_ping_reply("hello JoplinClipperServer!"), Ok(()));
    assert_eq!(
        check_ping_reply("nginx"),
        Err(ReadyError::UnexpectedPingReply("nginx".to_string()))
    );
}

#[test]
fn readiness_checks_in_order() {
    let ready = config("http://h", "token");
    let no_token = config("http://h", "  ");
    assert_eq!(ready.require_ready(true, true, true), Ok(()));
    assert_eq!(ready.require_ready(false, false, false), Err(ReadyError::JoplinMissing));
    assert_eq!(no_token.require_ready(true, false, false), Err(ReadyError::TokenMissing));
    assert_eq!(ready.require_ready(true, false, false), Err(ReadyError::WhisperBinMissing));
    assert_eq!(ready.require_ready(true, true, false), Err(ReadyError::WhisperModelMissing));
}

#[test]
fn token_is_read_from_settings() {
    assert_eq!(
        token_from_settings(r#"{"api.token": "abc123", "locale": "en"}"#),
        Some("abc123".to_string())
    );
    assert_eq!(token_from_settings(r#"{"api.token": "   "}"#), None);
    assert_eq!(token_from_settings(r#"{"api.token": 7}"#), None);
    assert_eq!(token_from_settings(r#"{"other": "x"}"#), None);
    assert_eq!(token_from_settings("not json"), None);
}

#[test]
fn blank_tokens_are_unusable() {
    assert_eq!(usable_token(Some(" \t".to_string())), None);
    assert_eq!(usable_token(None), None);
    assert_eq!(usable_token(Some(" x ".to_string())), Some(" x ".to_string()));
}

fn folder(id: &str, title: &str) -> Folder {
    Folder { id: id.to_string(), title: title.to_string() }
}

#[test]
fn folders_are_sorted_by_title_ignoring_case() {
    let sorted = sort_folders(vec![
        folder("1", "work"),
        folder("2", "Archive"),
        folder("3", "Zebra"),
        folder("4", "inbox"),
    ]);
    let ids: Vec<&str> = sorted.iter().map(|f| f.id.as_str()).collect();
    assert_eq!(ids, vec!["2", "4", "1", "3"]);
}

#[test]
fn folders_with_equal_titles_keep_their_order() {
    let sorted = sort_folders(vec![
        folder("a", "Notes"),
        folder("b", "apple"),
        folder("c", "notes"),
        folder("d", "NOTES"),
    ]);
    let ids: Vec<&str> = sorted.iter().map(|f| f.id.as_str()).collect();
    assert_eq!(ids, vec!["b", "a", "c", "d"]);
    assert!(sort_folders(Vec::new()).is_empty());
}

#[test]
fn appimage_names_are_recognised() {
    assert!(is_joplin_appimage("Joplin-3.0.15.AppImage"));
    assert!(is_joplin_appimage("joplin.AppImage"));
    assert!(!is_joplin_appimage("joplin.appimage"));
    assert!(!is_joplin_appimage("Joplin"));
    assert!(!is_joplin_appimage("Obsidian.AppImage"));
    assert!(!is_joplin_appimage(".AppImage"));
    assert!(!is_joplin_appimage("joplin.AppImage.zsync"));
}

#[test]
fn flatpak_listing_is_searched_without_case() {
    assert!(flatpak_lists_joplin("org.gnome.Calculator\nnet.cozic.Joplin_Desktop\n"));
    assert!(!flatpak_lists_joplin("org.gnome.Calculator\n"));
}

#[test]
fn readiness_messages_name_the_missing_paths() {
    let bin = "/w/build/bin/whisper-cli";
    let model = "/w/models/ggml-base.en.bin";
    assert_eq!(
        ReadyError::JoplinMissing.message(bin, model),
        "Joplin not found — install it from https://joplinapp.org first"
    );
    assert_eq!(
        ReadyError::TokenMissing.message(bin, model),
        "JOPLIN_TOKEN not set — enable Joplin Web Clipper and export the token"
    );
    assert_eq!(
        ReadyError::WhisperBinMissing.message(bin, model),
        "whisper-cli not found — build whisper.cpp first (missing: /w/build/bin/whisper-cli)"
    );
    assert_eq!(
        ReadyError::WhisperModelMissing.message(bin, model),
        "Whisper model not found: /w/models/ggml-base.en.bin"
    );
    assert_eq!(
        ReadyError::UnexpectedPingReply("nginx".to_string()).message(bin, model),
        "Unexpected Joplin Web Clipper ping response: nginx"
    );
}

#[test]
fn host_defaults_to_the_local_clipper() {
    assert_eq!(joplin_host_setting(None), "http://127.0.0.1:41184");
    assert_eq!(joplin_host_setting(Some("http://h:1".to_string())), "http://h:1");
}

#[test]
fn token_comes_from_environment_then_settings() {
    let settings = Some(r#"{"api.token": "fromfile"}"#.to_string());
    assert_eq!(token_setting(Some("env".to_string()), settings.clone()), "env");
    assert_eq!(token_setting(Some("  ".to_string()), settings.clone()), "fromfile");
    assert_eq!(token_setting(None, settings), "fromfile");
    assert_eq!(token_setting(None, Some("{}".to_string())), "");
    assert_eq!(token_setting(None, None), "");
}
