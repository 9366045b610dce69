//! Arguments, configuration check and status.

use dcfs::cli::args::{
    chosen_token, default_server, parse_command, parse_put, parse_status, Command, Exit,
    UsageError,
};
use dcfs::cli::config::{check_settings, present, Blocker, ServerSettings};
use dcfs::cli::encoding::{encode_name, is_encodable};
use dcfs::cli::http::{base_url, is_success, Endpoint, NodeOperation};
use dcfs::cli::status::{
    judge_health, judge_part_size, status_exit, HealthVerdict, PartSizeVerdict, Reply,
};

fn words(args: &[&str]) -> Vec<String> {
    args.iter().map(|a| a.to_string()).collect()
}

fn text(s: &str) -> Option<String> {
    Some(s.to_string())
}

#[test]
fn commands_are_told_apart() {
    assert_eq!(parse_command(Some("config-check")), Command::ConfigCheck);
    assert_eq!(parse_command(Some("status")), Command::Status);
    assert_eq!(parse_command(Some("put")), Command::Put);
    assert_eq!(parse_command(Some("-h")), Command::Help);
    assert_eq!(parse_command(Some("--help")), Command::Help);
    assert_eq!(parse_command(None), Command::Help);
    assert_eq!(parse_command(Some("")), Command::Unknown);
    assert_eq!(parse_command(Some("Put")), Command::Unknown);
}

#[test]
fn exits_have_their_codes() {
    assert_eq!(Exit::Success.code(), 0);
    assert_eq!(Exit::Failure.code(), 1);
    assert_eq!(Exit::Usage.code(), 2);
}

#[test]
fn the_environment_gives_defaults() {
    assert_eq!(default_server(text("http://s")), "http://s");
    assert_eq!(default_server(None), "http://127.0.0.1:8080");
    assert_eq!(chosen_token(text("a"), text("b")), text("a"));
    assert_eq!(chosen_token(None, text("b")), text("b"));
    assert_eq!(chosen_token(None, None), None);
}

#[test]
fn status_takes_a_server() {
    let default = || "http://d".to_string();
    assert_eq!(parse_status(&words(&[]), default()).unwrap(), "http://d");
    assert_eq!(
        parse_status(&words(&["--server", "a", "--server", "b"]), default()).unwrap(),
        "b"
    );
    assert!(matches!(
        parse_status(&words(&["--server"]), default()),
        Err(UsageError::MissingValue { flag }) if flag == "--server"
    ));
    assert!(matches!(
        parse_status(&words(&["--server", "a", "x"]), default()),
        Err(UsageError::UnknownOption { option }) if option == "x"
    ));
}

#[test]
fn put_takes_a_file_and_options() {
    let default = || "http://d".to_string();
    let r = parse_put(&words(&["a.bin"]), default()).unwrap();
    assert_eq!((r.server.as_str(), r.path.as_str()), ("http://d", "a.bin"));
    assert_eq!((r.name, r.resume), (None, false));

    let r = parse_put(
        &words(&["x", "--resume", "--name", "n", "--server", "s", "y"]),
        default(),
    )
    .unwrap();
    assert_eq!((r.server.as_str(), r.path.as_str()), ("s", "y"));
    assert_eq!((r.name, r.resume), (text("n"), true));

    // A value may look like an option.
    let r = parse_put(&words(&["--name", "--resume", "f"]), default()).unwrap();
    assert_eq!((r.name, r.resume), (text("--resume"), false));
}

#[test]
fn put_refuses_what_it_does_not_understand() {
    let default = || "http://d".to_string();
    assert!(matches!(
        parse_put(&words(&[]), default()),
        Err(UsageError::MissingFile)
    ));
    assert!(matches!(
        parse_put(&words(&["--resume"]), default()),
        Err(UsageError::MissingFile)
    ));
    assert!(matches!(
        parse_put(&words(&["f", "--name"]), default()),
        Err(UsageError::MissingValue { flag }) if flag == "--name"
    ));
    assert!(matches!(
        parse_put(&words(&["--server"]), default()),
        Err(UsageError::MissingValue { flag }) if flag == "--server"
    ));
    assert!(matches!(
        parse_put(&words(&["f", "-x"]), default()),
        Err(UsageError::UnknownOption { option }) if option == "-x"
    ));
    assert!(matches!(
        parse_put(&words(&["-"]), default()),
        Err(UsageError::UnknownOption { option }) if option == "-"
    ));
    // An empty argument is a file, if a strange one.
    assert_eq!(parse_put(&words(&[""]), default()).unwrap().path, "");
}

fn settings() -> ServerSettings {
    ServerSettings {
        master_key: true,
        api_token: true,
        discord_webhook_id: true,
        discord_webhook_token: true,
        object_store_path: None,
        database_url: true,
        database_schema: "dcfs".to_string(),
    }
}

#[test]
fn secrets_are_present_or_missing() {
    assert_eq!(present(true), "set");
    assert_eq!(present(false), "missing");
}

#[test]
fn complete_settings_start_a_server() {
    let report = check_settings(&settings());
    assert_eq!(report.metadata, "postgresql, schema dcfs");
    assert_eq!(report.objects, "discord");
    assert_eq!((report.master_key, report.api_token), ("set", "set"));
    assert!(report.blocking.is_empty());
    assert!(report.would_start());
    assert_eq!(report.exit(), Exit::Success);
}

#[test]
fn everything_that_is_missing_is_reported() {
    let report = check_settings(&ServerSettings {
        master_key: false,
        api_token: false,
        discord_webhook_token: false,
        database_url: false,
        ..settings()
    });
    assert_eq!(
        report.metadata,
        "in-memory (development only: lost on restart)"
    );
    assert_eq!(report.objects, "not configured");
    assert_eq!((report.master_key, report.api_token), ("missing", "missing"));
    let reasons: Vec<&str> = report.blocking.iter().map(|b| b.reason()).collect();
    assert_eq!(
        reasons,
        vec![
            "MASTER_KEY is not set (openssl rand -hex 32)",
            "API_TOKEN is not set (openssl rand -hex 32)",
            "set OBJECT_STORE_PATH, or the DISCORD_WEBHOOK_* pair",
        ]
    );
    assert!(!report.would_start());
    assert_eq!(report.exit(), Exit::Failure);
}

#[test]
fn a_directory_will_do_for_objects() {
    let report = check_settings(&ServerSettings {
        discord_webhook_id: false,
        object_store_path: text("/var/objects"),
        api_token: false,
        ..settings()
    });
    assert_eq!(report.objects, "/var/objects");
    assert_eq!(report.blocking, vec![Blocker::NoApiToken]);
    // Discord goes before a directory.
    let report = check_settings(&ServerSettings {
        object_store_path: text("/var/objects"),
        ..settings()
    });
    assert_eq!(report.objects, "discord");
}

#[test]
fn addresses_are_built_below_the_base() {
    assert_eq!(base_url("http://s//"), "http://s");
    assert_eq!(base_url("http://s"), "http://s");
    assert_eq!(base_url("///"), "");
    assert_eq!(Endpoint::Health.url("http://s"), "http://s/health");
    assert_eq!(Endpoint::FileSystem.url("b"), "b/api/v1/fs");
    assert_eq!(Endpoint::Resolve.url("b"), "b/api/v1/nodes/resolve");
    assert_eq!(Endpoint::Root.url("b"), "b/api/v1/nodes/root");
    assert_eq!(Endpoint::Nodes.url("b"), "b/api/v1/nodes");
    assert_eq!(NodeOperation::Data.url("b", "7"), "b/api/v1/nodes/7/data");
    assert_eq!(NodeOperation::Sync.url("b", "7"), "b/api/v1/nodes/7/sync");
    assert_eq!(
        NodeOperation::Publish.url("b", "7"),
        "b/api/v1/nodes/7/publish"
    );
}

#[test]
fn success_is_any_status_of_the_two_hundreds() {
    assert!(is_success(200));
    assert!(is_success(299));
    assert!(!is_success(199));
    assert!(!is_success(300));
}

#[test]
fn a_healthy_server_is_asked_for_its_part_size() {
    let ok = Reply::Answered { status: 200 };
    assert_eq!(judge_health(ok, true), HealthVerdict::Well);
    assert_eq!(judge_health(ok, true).exit(), None);
    assert_eq!(judge_health(ok, false), HealthVerdict::WellWithoutToken);
    assert_eq!(judge_health(ok, false).exit(), Some(Exit::Success));
    let ill = Reply::Answered { status: 503 };
    assert_eq!(judge_health(ill, true), HealthVerdict::Unwell { status: 503 });
    assert_eq!(judge_health(ill, true).exit(), Some(Exit::Failure));
    assert_eq!(
        judge_health(Reply::NoAnswer, false),
        HealthVerdict::Unreachable
    );
    assert_eq!(
        judge_health(Reply::NoAnswer, false).exit(),
        Some(Exit::Failure)
    );
}

#[test]
fn the_part_size_is_told_or_refused() {
    let judge = |status| judge_part_size(Reply::Answered { status });
    assert_eq!(judge(200), PartSizeVerdict::Told);
    assert_eq!(judge(200).exit(), Exit::Success);
    assert_eq!(judge(401), PartSizeVerdict::Unauthorized);
    assert_eq!(judge(401).exit(), Exit::Failure);
    assert_eq!(judge(500), PartSizeVerdict::Refused { status: 500 });
    assert_eq!(judge(500).exit(), Exit::Failure);
    assert_eq!(judge_part_size(Reply::NoAnswer), PartSizeVerdict::NoAnswer);
    assert_eq!(judge_part_size(Reply::NoAnswer).exit(), Exit::Failure);
}

#[test]
fn names_travel_in_url_safe_base64() {
    assert!(is_encodable("a"));
    assert_eq!(encode_name(""), "");
    assert_eq!(encode_name("f"), "Zg");
    assert_eq!(encode_name("fo"), "Zm8");
    assert_eq!(encode_name("foo"), "Zm9v");
    assert_eq!(encode_name("foobar"), "Zm9vYmFy");
    // Two characters of the URL-safe alphabet, and no padding.
    assert_eq!(encode_name("~~~?"), "fn5-Pw");
    assert_eq!(encode_name("\u{ff}\u{3f}"), "w78_");
    assert_eq!(encode_name("a file with a rather long name.bin"),
        "YSBmaWxlIHdpdGggYSByYXRoZXIgbG9uZyBuYW1lLmJpbg");
}

#[test]
fn status_ends_well_if_every_answer_is_good() {
    let good = Reply::Answered { status: 200 };
    let bad = Reply::Answered { status: 401 };
    assert_eq!(status_exit(good, true, good), Exit::Success);
    assert_eq!(status_exit(good, true, bad), Exit::Failure);
    assert_eq!(status_exit(good, true, Reply::NoAnswer), Exit::Failure);
    assert_eq!(status_exit(good, false, bad), Exit::Success);
    assert_eq!(status_exit(bad, true, good), Exit::Failure);
    assert_eq!(status_exit(Reply::NoAnswer, false, good), Exit::Failure);
}

#[test]
fn wrong_usage_has_its_own_ending() {
    assert_eq!(UsageError::MissingFile.exit(), Exit::Usage);
    let error = parse_put(&words(&["-x"]), "d".to_string()).unwrap_err();
    assert_eq!(error.exit(), Exit::Usage);
    let error = parse_status(&words(&["--server"]), "d".to_string()).unwrap_err();
    assert_eq!(error.exit(), Exit::Usage);
    assert_eq!(parse_command(Some("what")).exit(), Some(Exit::Usage));
    assert_eq!(parse_command(None).exit(), Some(Exit::Success));
    assert_eq!(parse_command(Some("put")).exit(), None);
}
