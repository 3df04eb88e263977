use gatherers::logging::{log_level_for, log_target_shown, LogLevel};
use gatherers::text::{parse_u64, u64_decimal};
use gatherers::cli::{CliAction, CliErrors, ContentTypes, TransactionFormat};
use gatherers::directories::Directories;
use gatherers::json::{strip_json_body, StripPattern, MESSAGE_STRIP_PATTERN};
use gatherers::text::{join_strings, to_ascii_lowercase};

#[test]
fn content_types_from_any_case() {
    assert_eq!(ContentTypes::from_str("all").unwrap(), ContentTypes::All);
    assert_eq!(ContentTypes::from_str("iMaGeS").unwrap(), ContentTypes::Images);
    assert_eq!(ContentTypes::from_str("VIDEOS").unwrap(), ContentTypes::Videos);
    assert_eq!(ContentTypes::from_str("Messages").unwrap(), ContentTypes::Messages);
    assert_eq!(ContentTypes::default(), ContentTypes::All);
}

#[test]
fn content_types_refuses_unknown() {
    match ContentTypes::from_str("audio") {
        Err(CliErrors::InvalidContentType { provided, valid_options }) => {
            assert_eq!(provided, "audio");
            assert_eq!(valid_options, vec!["All", "Images", "Videos", "Messages"]);
        }
        other => panic!("unexpected {:?}", other),
    }
}

#[test]
fn transaction_format_names() {
    assert_eq!(TransactionFormat::from_str("json").unwrap(), TransactionFormat::Json);
    assert_eq!(TransactionFormat::from_str("text").unwrap(), TransactionFormat::PlainText);
    assert_eq!(TransactionFormat::from_str("table").unwrap(), TransactionFormat::Table);
    assert_eq!(TransactionFormat::from_str("JSON").unwrap_err(), "[JSON] is not recognized");
    assert_eq!(TransactionFormat::default(), TransactionFormat::PlainText);
}

#[test]
fn cli_action_default_is_start() {
    match CliAction::default() {
        CliAction::Start { user_names, worker_count, limit_subs, limit_media, ignored_user_names } => {
            assert!(user_names.is_empty());
            assert_eq!(worker_count, 0);
            assert!(limit_subs.is_none());
            assert!(limit_media.is_none());
            assert!(ignored_user_names.is_empty());
        }
        other => panic!("unexpected {:?}", other),
    }
}

#[test]
fn directories_prefer_project_folder() {
    let d = Directories::from_folders(
        Some("/home/u/.config/gatherers".to_string()),
        Some(("/home/u/.local/share".to_string(), "/home/u/.config".to_string())),
        "gatherers",
    );
    assert!(d.has_download_dir() && d.has_config_dir());
    assert_eq!(d.get_default_download_dir(), "/home/u/.config/gatherers");
    assert_eq!(d.get_default_config_dir(), "/home/u/.config/gatherers");
}

#[test]
fn directories_fall_back_to_base_folders() {
    let d = Directories::from_folders(
        None,
        Some(("/home/u/.local/share".to_string(), "/home/u/.config".to_string())),
        "gatherers",
    );
    assert_eq!(d.get_default_download_dir(), "/home/u/.local/share/gatherers");
    assert_eq!(d.get_default_config_dir(), "/home/u/.config");
    let none = Directories::from_folders(None, None, "gatherers");
    assert!(!none.has_download_dir());
    assert!(!none.has_config_dir());
}

#[test]
fn directories_of_this_machine() {
    let d = Directories::new();
    assert_eq!(d.has_download_dir(), d.has_config_dir());
}

#[test]
fn strip_json_body_removes_escapes() {
    let p = StripPattern::new(MESSAGE_STRIP_PATTERN).unwrap();
    assert_eq!(strip_json_body("{\"m\":\"hi \\ud83d there\"}", Some(&p)), "{\"m\":\"hi there\"}");
    assert_eq!(strip_json_body("a\\u1234...b", Some(&p)), "ab");
    assert_eq!(strip_json_body("a\\u1234 b", None), "a\\u1234 b");
    assert!(StripPattern::new("(unclosed").is_none());
}

#[test]
fn text_helpers() {
    assert_eq!(to_ascii_lowercase("FanSly-1"), "fansly-1");
    assert_eq!(join_strings(&vec!["a".to_string(), "b".to_string()], ", "), "a, b");
    assert_eq!(join_strings(&Vec::new(), ","), "");
}

#[test]
fn parse_u64_reads_like_str_parse() {
    assert_eq!(parse_u64("0"), Some(0));
    assert_eq!(parse_u64("1234"), Some(1234));
    assert_eq!(parse_u64("+7"), Some(7));
    assert_eq!(parse_u64("007"), Some(7));
    assert_eq!(parse_u64("18446744073709551615"), Some(u64::MAX));
    assert_eq!(parse_u64("18446744073709551616"), None);
    assert_eq!(parse_u64(""), None);
    assert_eq!(parse_u64("+"), None);
    assert_eq!(parse_u64("-1"), None);
    assert_eq!(parse_u64("12a"), None);
    assert_eq!(parse_u64(" 1"), None);
    for text in ["5", "+5", "x", "99999999999999999999", "42"] {
        assert_eq!(parse_u64(text), text.parse::<u64>().ok());
    }
}

#[test]
fn decimal_text_parses_back() {
    for n in [0u64, 9, 10, 4096, u64::MAX] {
        let text: String = u64_decimal(n).into_iter().collect();
        assert_eq!(text, n.to_string());
        assert_eq!(parse_u64(&text), Some(n));
    }
}

#[test]
fn log_levels_and_quiet_targets() {
    assert_eq!(log_level_for(0), LogLevel::Error);
    assert_eq!(log_level_for(1), LogLevel::Info);
    assert_eq!(log_level_for(2), LogLevel::Debug);
    assert_eq!(log_level_for(3), LogLevel::Trace);
    assert_eq!(log_level_for(9), LogLevel::Trace);
    assert!(!log_target_shown("polling::epoll"));
    assert!(!log_target_shown("async_io::reactor"));
    assert!(!log_target_shown("async_h1::client"));
    assert!(!log_target_shown("rustls::client::hs"));
    assert!(log_target_shown("gatherers"));
    assert!(log_target_shown("poll"));
    assert!(log_target_shown(""));
}

#[test]
fn directories_config_folder_ends_in_program_name() {
    let d = Directories::new();
    if d.has_config_dir() {
        assert!(d.get_default_config_dir().ends_with("/gatherers"));
        assert!(d.get_default_download_dir().ends_with("/gatherers"));
    }
}
