use airlogs::log_getter::{path_of_device, path_of_folder};
use airlogs::s3_cli::{AWSCliOperations, CopyRequest};
use airlogs::text::{
    chars_of, collapse, ends_with, matches_at, push_all, push_str, replace, same_text, string_of,
};
use airlogs::types::{Configs, FileIndex, Prefix};

fn path_configs() -> Configs {
    Configs {
        base_path: "bucket/logs".to_string(),
        profile: "reader".to_string(),
        output_path: "/tmp/out".to_string(),
    }
}

fn replaced_text(text: &str, pattern: &str, replacement: &str) -> String {
    string_of(&replace(&chars_of(text), &chars_of(pattern), &chars_of(replacement)))
}

fn collapsed_text(path: &str) -> String {
    string_of(&collapse(&chars_of(path)))
}

#[test]
fn characters_come_back_as_the_same_string() {
    for text in ["", "a", "device/2024-01-01/", "héllo wörld \u{1f600}"] {
        let chars = chars_of(text);
        assert_eq!(chars, text.chars().collect::<Vec<char>>());
        assert_eq!(string_of(&chars), text);
    }
}

#[test]
fn pushing_appends() {
    let mut out = chars_of("ab");
    push_all(&mut out, &['c', 'd']);
    push_str(&mut out, "ef");
    assert_eq!(string_of(&out), "abcdef");
}

#[test]
fn matching_is_exact() {
    let text = chars_of("a.log.log");
    assert!(matches_at(&text, &chars_of(".log"), 1));
    assert!(matches_at(&text, &chars_of(".log"), 5));
    assert!(!matches_at(&text, &chars_of(".log"), 2));
    assert!(!matches_at(&text, &chars_of(".log"), 6));
    assert!(matches_at(&text, &chars_of(""), 9));
    assert!(!matches_at(&text, &chars_of(""), 10));
    assert!(!matches_at(&text, &chars_of("g"), 9));
    assert!(ends_with(&text, &chars_of(".log.log")));
    assert!(ends_with(&text, &chars_of("")));
    assert!(!ends_with(&chars_of("a.log"), &chars_of(".log.log")));
    assert!(!ends_with(&chars_of("log"), &chars_of(".log.log")));
    assert!(same_text(&text, "a.log.log"));
    assert!(!same_text(&text, "a.log.loh"));
    assert!(!same_text(&text, "a.log"));
}

#[test]
fn replacing_goes_from_left_to_right() {
    assert_eq!(replaced_text("a.log.log", ".log.log", ".log"), "a.log");
    assert_eq!(replaced_text("a.log.log.log", ".log.log", ".log"), "a.log.log");
    assert_eq!(replaced_text("a.log.log.log.log", ".log.log", ".log"), "a.log.log");
    assert_eq!(replaced_text("a.log.logb.log.log", ".log.log", ".log"), "a.logb.log");
    assert_eq!(replaced_text("aaa", "aa", "b"), "ba");
    assert_eq!(replaced_text("abc", "x", "y"), "abc");
    assert_eq!(replaced_text("", "x", "y"), "");
    assert_eq!(replaced_text("xx", "x", ""), "");
}

#[test]
fn replacing_agrees_with_the_standard_library() {
    for (text, pattern, replacement) in [
        ("device//2024-01-01//", "//", "/"),
        ("a///b", "//", "/"),
        ("////", "//", "/"),
        ("/", "//", "/"),
        ("a.log.log", ".log.log", ".log"),
        ("x.log.log.log", ".log.log", ".log"),
        ("abababa", "aba", "c"),
        ("héé", "é", "e"),
        ("same", "same", "other"),
    ] {
        assert_eq!(
            replaced_text(text, pattern, replacement),
            text.replace(pattern, replacement),
            "{:?}",
            (text, pattern, replacement)
        );
    }
}

#[test]
fn an_empty_pattern_occurs_nowhere() {
    assert_eq!(replaced_text("abc", "", "-"), "abc");
}

#[test]
fn doubled_separators_are_collapsed_in_one_pass() {
    assert_eq!(collapsed_text("device//2024-01-01//"), "device/2024-01-01/");
    assert_eq!(collapsed_text("device/2024-01-01/"), "device/2024-01-01/");
    assert_eq!(collapsed_text("a///b"), "a//b");
    assert_eq!(collapsed_text("a////b"), "a//b");
    assert_eq!(collapsed_text(""), "");
}

#[test]
fn the_remote_path_joins_the_base_and_the_collapsed_path() {
    let cli = AWSCliOperations::new(path_configs());
    assert_eq!(cli.get_path("device/2024-01-01/"), "s3://bucket/logs/device/2024-01-01/");
    assert_eq!(cli.get_path(""), "s3://bucket/logs/");
    assert_eq!(cli.get_path("a///b"), "s3://bucket/logs/a//b");
}

#[test]
fn a_doubled_separator_addresses_the_same_object() {
    let cli = AWSCliOperations::new(path_configs());
    assert_eq!(cli.get_path("device//2024-01-01//"), cli.get_path("device/2024-01-01/"));
    assert_eq!(cli.ls_command("device//2024-01-01//"), cli.ls_command("device/2024-01-01/"));
    assert_eq!(
        cli.cp_command("device//2024-01-01//a.log.log", "device/a.log"),
        cli.cp_command("device/2024-01-01/a.log.log", "device/a.log")
    );
}

#[test]
fn the_base_path_is_not_collapsed() {
    let cli = AWSCliOperations::new(Configs {
        base_path: "bucket//logs".to_string(),
        profile: "p".to_string(),
        output_path: "o".to_string(),
    });
    assert_eq!(cli.get_path("x"), "s3://bucket//logs/x");
}

#[test]
fn the_commands_name_the_profile() {
    let cli = AWSCliOperations::new(path_configs());
    assert_eq!(
        cli.ls_command("device/"),
        "aws s3 ls s3://bucket/logs/device/ --profile reader"
    );
    assert_eq!(
        cli.cp_command("device/d/a.log.log", "device/d/a.log"),
        "aws s3 cp s3://bucket/logs/device/d/a.log.log /tmp/out/device/d/a.log --profile reader"
    );
    assert_eq!(cli.local_target("device/d/a.log"), "/tmp/out/device/d/a.log");
}

#[test]
fn the_backend_keeps_its_settings() {
    let cli = AWSCliOperations::new(path_configs());
    assert_eq!(cli.get_configs(), &path_configs());
}

#[test]
fn a_download_is_not_planned_for_a_missing_path() {
    let cli = AWSCliOperations::new(path_configs());
    let probe = Err("File or path x was not found".to_string());
    assert_eq!(
        cli.plan_copy("x", "y", &probe),
        Err("Failed to upload file, file not found".to_string())
    );
}

#[test]
fn a_download_is_planned_for_a_listed_path() {
    let cli = AWSCliOperations::new(path_configs());
    let probe = Ok(vec![FileIndex::Prefix(Prefix { name: "x".to_string() })]);
    assert_eq!(
        cli.plan_copy("d/x", "d/y", &probe),
        Ok(CopyRequest {
            command: "aws s3 cp s3://bucket/logs/d/x /tmp/out/d/y --profile reader".to_string(),
            target: "/tmp/out/d/y".to_string(),
        })
    );
}

#[test]
fn only_the_file_on_disk_confirms_a_download() {
    assert_eq!(AWSCliOperations::confirm_copy(true), Ok(()));
    assert_eq!(
        AWSCliOperations::confirm_copy(false),
        Err("Failed to download file!".to_string())
    );
}

#[test]
fn a_failed_first_listing_names_the_likely_reasons() {
    let cli = AWSCliOperations::new(path_configs());
    let message = cli.check_reachable(&Err("boom".to_string())).unwrap_err();
    assert_eq!(
        message,
        "Failed to do ls on logs base path bucket/logs, error : boom. Possible reasons are :\n\n                1) You need to relogin with aws sso login --profile reader\n                2) Base path is invalid\n                3) No internet connection\n                4) Profile doesn't exist or doesn't have permissions"
    );
    assert_eq!(cli.check_reachable(&Ok(vec![])), Ok(()));
}

#[test]
fn folder_paths_end_with_a_separator() {
    assert_eq!(path_of_device("device"), "device/");
    assert_eq!(path_of_folder("device", "2024-01-01"), "device/2024-01-01/");
    assert_eq!(path_of_folder("device", "2024-01-01/"), "device/2024-01-01/");
    assert_eq!(path_of_folder("device/", "2024-01-01/"), "device/2024-01-01/");
}
