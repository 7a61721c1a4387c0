use changelog::change::{Change, FrontMatter, MAX_TIMESTAMP, MIN_TIMESTAMP};
use changelog::error::ChangelogError;
use changelog::fragment::{parse_file_content, split_file_content, trim, RawFragment};
use changelog::kind::Kind;
use time::OffsetDateTime;

fn yaml_failure() -> serde_yaml::Error {
    serde_yaml::from_str::<bool>("[").unwrap_err()
}

fn metadata() -> FrontMatter {
    FrontMatter { kind: Kind::Changed, breaking: Some(true), priority: Some(3) }
}

#[test]
fn splits_a_complete_document() {
    let raw = split_file_content("---\nkind: added\npriority: 2\n---\nA new thing.\n").unwrap();
    assert_eq!(raw.frontmatter, "kind: added\npriority: 2\n");
    assert_eq!(raw.body.as_deref(), Some("A new thing.\n"));
}

#[test]
fn what_stands_before_the_first_delimiter_is_dropped() {
    let raw = split_file_content("preamble\n---\nkind: fixed\n---\nbody").unwrap();
    assert_eq!(raw.frontmatter, "kind: fixed\n");
    assert_eq!(raw.body.as_deref(), Some("body"));
}

#[test]
fn document_without_delimiter_has_no_frontmatter() {
    for text in ["", "kind: added\n", "---", "--\n", "-- -\n", "---\r\n"] {
        let outcome = split_file_content(text);
        assert!(matches!(outcome, Err(ChangelogError::MissingFrontmatter)), "{text:?}");
        assert_eq!(outcome.unwrap_err().message(), "Missing frontmatter");
    }
}

#[test]
fn document_with_one_delimiter_has_no_body() {
    let raw = split_file_content("---\nkind: added\n").unwrap();
    assert_eq!(raw.frontmatter, "kind: added\n");
    assert_eq!(raw.body, None);
    let bare = split_file_content("---\n").unwrap();
    assert_eq!(bare.frontmatter, "");
    assert_eq!(bare.body, None);
}

#[test]
fn body_may_be_empty() {
    let raw = split_file_content("---\nkind: added\n---\n").unwrap();
    assert_eq!(raw.frontmatter, "kind: added\n");
    assert_eq!(raw.body.as_deref(), Some(""));
}

#[test]
fn later_delimiters_belong_to_the_body() {
    let raw = split_file_content("---\na\n---\nb\n---\nc\n---\n").unwrap();
    assert_eq!(raw.frontmatter, "a\n");
    assert_eq!(raw.body.as_deref(), Some("b\n---\nc\n---\n"));
}

#[test]
fn delimiter_need_not_start_a_line() {
    let raw = split_file_content("x---\ny----\nz").unwrap();
    assert_eq!(raw.frontmatter, "y-");
    assert_eq!(raw.body.as_deref(), Some("z"));
    let adjacent = split_file_content("---\n---\n").unwrap();
    assert_eq!(adjacent.frontmatter, "");
    assert_eq!(adjacent.body.as_deref(), Some(""));
}

#[test]
fn splitting_agrees_with_splitn() {
    let documents = [
        "---\nkind: added\n---\nbody\n",
        "a---\nb---\nc---\nd",
        "------\n---\n",
        "-----\n-\n---\n\n---\n",
        "é---\nü: ö\n---\n  日本語  \n",
        "---\n\u{2003}x\u{2003}",
        "no delimiter here",
        "---\n",
        "",
    ];
    for document in documents {
        let mut parts = document.splitn(3, "---\n");
        let frontmatter = parts.nth(1);
        let body = parts.next();
        match split_file_content(document) {
            Ok(raw) => {
                assert_eq!(Some(raw.frontmatter.as_str()), frontmatter, "{document:?}");
                assert_eq!(raw.body.as_deref(), body, "{document:?}");
            }
            Err(error) => {
                assert!(matches!(error, ChangelogError::MissingFrontmatter));
                assert_eq!(frontmatter, None, "{document:?}");
            }
        }
    }
}

#[test]
fn trim_removes_surrounding_white_space() {
    assert_eq!(trim("  hello world \n"), "hello world");
    assert_eq!(trim("\n\t x \r\n"), "x");
    assert_eq!(trim("inner  space"), "inner  space");
    assert_eq!(trim(""), "");
    assert_eq!(trim(" \n\t "), "");
    assert_eq!(trim("a"), "a");
    assert_eq!(trim(" a"), "a");
    assert_eq!(trim("a "), "a");
}

#[test]
fn trim_agrees_with_the_standard_trim() {
    let texts = [
        "\u{a0}non-breaking\u{a0}",
        "\u{2003}em space\u{3000}",
        "\u{85}next line\u{2028}\u{2029}",
        "\u{200b}zero width is kept\u{200b}",
        "  日本語 テキスト  ",
        "\u{1680}\u{2000}\u{200a}\u{202f}\u{205f}x\u{b}\u{c}",
        "_ _",
    ];
    for text in texts {
        assert_eq!(trim(text), text.trim(), "{text:?}");
    }
}

#[test]
fn parse_gives_metadata_and_trimmed_body() {
    let raw = RawFragment {
        frontmatter: "kind: changed\n".to_string(),
        body: Some("\n  Reworked the thing.\n\n".to_string()),
    };
    let (frontmatter, body) = parse_file_content(raw, Ok(metadata())).unwrap();
    assert_eq!(frontmatter, metadata());
    assert_eq!(body, "Reworked the thing.");
}

#[test]
fn parse_reports_undecodable_metadata() {
    let raw = RawFragment { frontmatter: "[".to_string(), body: Some("body".to_string()) };
    let expected = yaml_failure().to_string();
    match parse_file_content(raw, Err(yaml_failure())) {
        Err(ChangelogError::InvalidFrontmatter(reason)) => {
            assert_eq!(reason.to_string(), expected)
        }
        other => panic!("unexpected outcome: {other:?}"),
    }
    let error = ChangelogError::InvalidFrontmatter(yaml_failure());
    assert_eq!(error.message(), "Failed to parse frontmatter");
}

#[test]
fn parse_reports_a_missing_body() {
    let raw = RawFragment { frontmatter: "kind: changed\n".to_string(), body: None };
    let outcome = parse_file_content(raw, Ok(metadata()));
    assert!(matches!(outcome, Err(ChangelogError::MissingBody)));
    assert_eq!(outcome.unwrap_err().message(), "Missing body");
}

#[test]
fn undecodable_metadata_is_reported_before_a_missing_body() {
    let raw = RawFragment { frontmatter: "[".to_string(), body: None };
    let outcome = parse_file_content(raw, Err(yaml_failure()));
    assert!(matches!(outcome, Err(ChangelogError::InvalidFrontmatter(_))));
}

#[test]
fn parse_accepts_an_empty_body() {
    let raw = split_file_content("---\nkind: changed\n---\n \n").unwrap();
    let (_, body) = parse_file_content(raw, Ok(metadata())).unwrap();
    assert_eq!(body, "");
}

#[test]
fn change_is_assembled_from_its_parts() {
    let change = Change::new(metadata(), "Reworked.".to_string(), 1_546_300_800).unwrap();
    assert_eq!(change.kind, Kind::Changed);
    assert_eq!(change.breaking, Some(true));
    assert_eq!(change.priority, Some(3));
    assert_eq!(change.created, 1_546_300_800);
    assert_eq!(change.content, "Reworked.");
    let epoch = Change::new(metadata(), String::new(), 0).unwrap();
    assert_eq!(epoch.created, 0);
    assert_eq!(epoch.created, OffsetDateTime::UNIX_EPOCH.unix_timestamp());
}

#[test]
fn creation_time_must_be_representable() {
    assert_eq!(MIN_TIMESTAMP, -377_705_116_800);
    assert_eq!(MAX_TIMESTAMP, 253_402_300_799);
    for seconds in [MIN_TIMESTAMP, -1, 0, 1, MAX_TIMESTAMP] {
        let change = Change::new(metadata(), "x".to_string(), seconds).unwrap();
        assert_eq!(change.created, seconds);
        assert!(OffsetDateTime::from_unix_timestamp(seconds).is_ok());
    }
    for seconds in [MIN_TIMESTAMP - 1, MAX_TIMESTAMP + 1, i64::MIN, i64::MAX] {
        let outcome = Change::new(metadata(), "x".to_string(), seconds);
        assert!(matches!(outcome, Err(ChangelogError::TimestampOutOfRange(_))), "{seconds}");
        assert_eq!(outcome.unwrap_err().message(), "creation time out of range");
        assert!(OffsetDateTime::from_unix_timestamp(seconds).is_err());
    }
}

#[test]
fn cloned_change_keeps_every_field() {
    let change = Change {
        kind: Kind::Security,
        breaking: Some(false),
        priority: Some(255),
        created: -42,
        content: "Patched.".to_string(),
    };
    let copy = change.clone();
    assert_eq!(copy.kind, Kind::Security);
    assert_eq!(copy.breaking, Some(false));
    assert_eq!(copy.priority, Some(255));
    assert_eq!(copy.created, -42);
    assert_eq!(copy.content, "Patched.");
}
