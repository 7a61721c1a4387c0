use changelog::error::ChangelogError;
use changelog::version::Version;

#[test]
fn parses_a_plain_version() {
    let version = Version::parse("1.2.3").unwrap();
    assert_eq!(version.major, 1);
    assert_eq!(version.minor, 2);
    assert_eq!(version.patch, 3);
    assert_eq!(version.pre, "");
    assert_eq!(version.build, "");
}

#[test]
fn parses_pre_release_and_build_metadata() {
    let version = Version::parse("10.20.30-alpha.1+build.5").unwrap();
    assert_eq!(version.major, 10);
    assert_eq!(version.minor, 20);
    assert_eq!(version.patch, 30);
    assert_eq!(version.pre, "alpha.1");
    assert_eq!(version.build, "build.5");
}

#[test]
fn parsing_agrees_with_semver() {
    for text in ["0.0.0", "1.0.0", "0.1.0-rc.2", "3.4.5+sha.abc", "18446744073709551615.0.1"] {
        let ours = Version::parse(text).unwrap();
        let theirs = semver::Version::parse(text).unwrap();
        assert_eq!(ours.major, theirs.major);
        assert_eq!(ours.minor, theirs.minor);
        assert_eq!(ours.patch, theirs.patch);
        assert_eq!(ours.pre, theirs.pre.as_str());
        assert_eq!(ours.build, theirs.build.as_str());
        assert_eq!(ours.to_text(), theirs.to_string());
    }
}

#[test]
fn rejects_what_is_no_version() {
    for text in ["", "1", "1.2", "1.q.r", "01.2.3", "1.2.3-", "1.2.3+", " 1.2.3", "1.2.3 ", "v1.2.3"] {
        let outcome = Version::parse(text);
        assert!(matches!(outcome, Err(ChangelogError::InvalidVersion(_))), "{text:?}");
        assert!(semver::Version::parse(text).is_err());
    }
}

#[test]
fn invalid_version_keeps_the_reason() {
    match Version::parse("1.q.r") {
        Err(ChangelogError::InvalidVersion(reason)) => {
            assert_eq!(
                reason.to_string(),
                semver::Version::parse("1.q.r").unwrap_err().to_string()
            );
        }
        other => panic!("unexpected outcome: {other:?}"),
    }
    assert_eq!(Version::parse("x").unwrap_err().message(), "invalid semantic version");
}

#[test]
fn new_makes_a_release_version() {
    let version = Version::new(4, 0, 17);
    assert_eq!((version.major, version.minor, version.patch), (4, 0, 17));
    assert!(version.pre.is_empty());
    assert!(version.build.is_empty());
    assert_eq!(version.to_text(), "4.0.17");
}

#[test]
fn version_text_is_written_in_full() {
    assert_eq!(Version::new(0, 0, 0).to_text(), "0.0.0");
    assert_eq!(Version::new(u64::MAX, 10, 909).to_text(), "18446744073709551615.10.909");
    let tagged = Version {
        major: 1,
        minor: 0,
        patch: 0,
        pre: "beta.2".to_string(),
        build: String::new(),
    };
    assert_eq!(tagged.to_text(), "1.0.0-beta.2");
    let built = Version {
        major: 1,
        minor: 0,
        patch: 0,
        pre: String::new(),
        build: "2024".to_string(),
    };
    assert_eq!(built.to_text(), "1.0.0+2024");
    let both = Version {
        major: 2,
        minor: 13,
        patch: 1,
        pre: "rc.1".to_string(),
        build: "exp.sha.5114f85".to_string(),
    };
    assert_eq!(both.to_text(), "2.13.1-rc.1+exp.sha.5114f85");
}

#[test]
fn clone_keeps_every_field() {
    let version = Version::parse("7.8.9-pre+meta").unwrap();
    let copy = version.clone();
    assert_eq!(copy.to_text(), "7.8.9-pre+meta");
    assert_eq!(copy.major, 7);
    assert_eq!(copy.pre, version.pre);
    assert_eq!(copy.build, version.build);
}
