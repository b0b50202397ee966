//! Hosts, versions and ANS names.

use ans_csr::{AnsName, Fqdn, ParseError, Version};

fn fqdn_error(host: &str) -> String {
    match Fqdn::new(host) {
        Err(ParseError::InvalidFqdn(reason)) => reason,
        other => panic!("{host:?} gave {other:?}"),
    }
}

fn version_error(v: &str) -> String {
    match Version::parse(v) {
        Err(ParseError::InvalidVersion(reason)) => reason,
        other => panic!("{v:?} gave {other:?}"),
    }
}

fn ans_name_error(uri: &str) -> String {
    match AnsName::parse(uri) {
        Err(ParseError::InvalidAnsName(reason)) => reason,
        other => panic!("{uri:?} gave {other:?}"),
    }
}

#[test]
fn invalid_hosts_are_rejected() {
    for host in [
        "",
        "bad host",
        "a..b",
        "aaaaaaaaaaaaaaaaaaaaaaaaaaaaaaaaaaaaaaaaaaaaaaaaaaaaaaaaaaaaaaaaa.example.com",
        "bad_host.example.com",
        "-bad.example.com",
    ] {
        assert!(
            Fqdn::new(host).is_err(),
            "{host:?} must not parse as an FQDN"
        );
    }
}

#[test]
fn invalid_versions_are_rejected() {
    for v in ["", "1.2", "1.2.3.4", "1.2.3-rc1", "1.2.3+build.5", "a.b.c"] {
        assert!(Version::parse(v).is_err(), "{v:?} must not parse");
    }
}

#[test]
fn hosts_are_brought_into_canonical_form() {
    assert_eq!(Fqdn::new("agent.example.com").unwrap().as_str(), "agent.example.com");
    assert_eq!(Fqdn::new("agent.example.com.").unwrap().as_str(), "agent.example.com");
    assert_eq!(Fqdn::new("agent.example.com...").unwrap().as_str(), "agent.example.com");
    assert_eq!(Fqdn::new("Agent.Example.COM").unwrap().as_str(), "agent.example.com");
    assert_eq!(Fqdn::new("localhost").unwrap().as_str(), "localhost");
    assert_eq!(Fqdn::new("a-0.Z9").unwrap().as_str(), "a-0.z9");
    let label = "a".repeat(63);
    assert_eq!(Fqdn::new(&label).unwrap().as_str(), label);
}

#[test]
fn canonical_hosts_are_kept() {
    let first = Fqdn::new("My-Agent.Example.COM.").unwrap();
    let second = Fqdn::new(first.as_str()).unwrap();
    assert_eq!(first.as_str(), second.as_str());
    assert_eq!(first.clone().as_str(), "my-agent.example.com");
}

#[test]
fn host_errors_name_the_first_fault() {
    assert_eq!(fqdn_error(""), "empty domain");
    assert_eq!(fqdn_error("."), "empty label");
    assert_eq!(fqdn_error("a..b"), "empty label");
    assert_eq!(fqdn_error(&"a".repeat(64)), "label too long");
    assert_eq!(fqdn_error("bad_host.-x"), "invalid character in label: bad_host");
    assert_eq!(fqdn_error("a.-x"), "label cannot start or end with hyphen");
    assert_eq!(fqdn_error("x-.a"), "label cannot start or end with hyphen");
    // 32 characters of two bytes each.
    assert_eq!(fqdn_error(&"\u{e4}".repeat(32)), "label too long");
    assert_eq!(
        fqdn_error(&"\u{e4}".repeat(31)),
        format!("invalid character in label: {}", "\u{e4}".repeat(31))
    );
    assert_eq!(
        Fqdn::new("a..b").unwrap_err().message(),
        "Invalid FQDN: empty label"
    );
}

#[test]
fn versions_are_parsed_with_and_without_v() {
    assert_eq!(Version::parse("1.2.3").unwrap(), Version::new(1, 2, 3));
    assert_eq!(Version::parse("v1.2.3").unwrap(), Version::new(1, 2, 3));
    assert_eq!(Version::parse("+1.002.0").unwrap(), Version::new(1, 2, 0));
    assert_eq!(
        Version::parse("4294967295.0.0").unwrap(),
        Version::new(u32::MAX, 0, 0)
    );
}

#[test]
fn versions_are_read_back() {
    for v in [
        Version::new(0, 0, 0),
        Version::new(10, 20, 30),
        Version::new(u32::MAX, 9, 100),
    ] {
        assert_eq!(Version::parse(&v.text()).unwrap(), v.clone());
    }
    assert_eq!(Version::new(1, 2, 3).text(), "v1.2.3");
}

#[test]
fn version_errors_name_the_first_fault() {
    assert_eq!(version_error(""), "expected 3 parts, got 1: ");
    assert_eq!(version_error("v1.2"), "expected 3 parts, got 2: 1.2");
    assert_eq!(version_error("1.2.3.4"), "expected 3 parts, got 4: 1.2.3.4");
    assert_eq!(version_error("a.b.c"), "invalid major version: a");
    assert_eq!(version_error("1..3"), "invalid minor version: ");
    assert_eq!(version_error("1.+.3"), "invalid minor version: +");
    assert_eq!(version_error("1.2.3-rc1"), "invalid patch version: 3-rc1");
    assert_eq!(version_error("1.2.4294967296"), "invalid patch version: 4294967296");
    assert_eq!(version_error("vv1.2.3"), "invalid major version: v1");
    assert_eq!(
        Version::parse("1.2").unwrap_err().message(),
        "Invalid version format: expected 3 parts, got 2: 1.2"
    );
}

#[test]
fn ans_names_are_parsed() {
    let name = AnsName::parse("ans://v2.1.3.Agent.example.com").unwrap();
    assert_eq!(name.version(), &Version::new(2, 1, 3));
    assert_eq!(name.fqdn().as_str(), "agent.example.com");
    assert_eq!(name.text(), "ans://v2.1.3.agent.example.com");
    let again = AnsName::parse(&name.text()).unwrap();
    assert_eq!(again.text(), name.text());
}

#[test]
fn ans_name_errors_name_the_fault() {
    assert_eq!(
        ans_name_error("v1.0.0.agent.example.com"),
        "ANS name must start with 'ans://': v1.0.0.agent.example.com"
    );
    assert_eq!(
        ans_name_error("ans://1.0.0.agent.example.com"),
        "ANS name version must start with 'v': ans://1.0.0.agent.example.com"
    );
    assert_eq!(
        ans_name_error("ans://v1.0.0"),
        "ANS name must have format 'ans://vX.Y.Z.fqdn', got: ans://v1.0.0"
    );
    assert!(matches!(
        AnsName::parse("ans://v1.0.x.agent.example.com"),
        Err(ParseError::InvalidVersion(_))
    ));
    assert!(matches!(
        AnsName::parse("ans://v1.0.0.agent..com"),
        Err(ParseError::InvalidFqdn(_))
    ));
    assert_eq!(
        AnsName::parse("ans://x").unwrap_err().message(),
        "Invalid ANS name format: ANS name version must start with 'v': ans://x"
    );
}

#[test]
fn doubled_v_is_rejected() {
    assert!(AnsName::parse("ans://vv1.2.3.agent.example.com").is_err());
}
