use krysta_probe::commands::login::{
    auth_code, auth_start_url, authorize_url, next_poll, poll_decision, poll_url, KrystaConfig, PollDecision,
    MAX_POLLS,
};
use krysta_probe::commands::probe::{risk_score, severity_breakdown, severity_icon};
use krysta_probe::engine::scanner::{map_category, map_severity};
use krysta_probe::engine::vuln_db;
use krysta_probe::models::finding::{Category, Finding, FindingSource, Severity};
use krysta_probe::text::{join_strs, push_decimal, push_signed_decimal, push_zero_padded, split_lines, str_trim};

fn finding(severity: Severity) -> Finding {
    Finding {
        id: "X".to_string(),
        title: "t".to_string(),
        severity,
        category: Category::SSRF,
        description: String::new(),
        evidence: String::new(),
        remediation: String::new(),
        source: FindingSource::Static,
    }
}

#[test]
fn breakdown_counts_each_severity() {
    let fs = vec![
        finding(Severity::High),
        finding(Severity::Low),
        finding(Severity::High),
        finding(Severity::Medium),
    ];
    let b = severity_breakdown(&fs);
    assert_eq!((b.critical, b.high, b.medium, b.low), (0, 2, 1, 1));
    assert_eq!(b.critical + b.high + b.medium + b.low, fs.len());
    assert_eq!(risk_score(&b), "🟠 HIGH");
}

#[test]
fn risk_is_the_worst_severity() {
    assert_eq!(risk_score(&severity_breakdown(&vec![finding(Severity::Low), finding(Severity::Critical)])), "🔴 CRITICAL");
    assert_eq!(risk_score(&severity_breakdown(&vec![finding(Severity::Medium)])), "🟡 MEDIUM");
    assert_eq!(risk_score(&severity_breakdown(&vec![finding(Severity::Low)])), "🟢 LOW");
    assert_eq!(risk_score(&severity_breakdown(&Vec::new())), "🟢 LOW");
}

#[test]
fn severity_icons() {
    assert_eq!(severity_icon(Severity::Critical), "🔴");
    assert_eq!(severity_icon(Severity::High), "🟠");
    assert_eq!(severity_icon(Severity::Medium), "🟡");
    assert_eq!(severity_icon(Severity::Low), "🟢");
}

#[test]
fn labels_of_findings() {
    assert_eq!(FindingSource::SourceCode.label(), "Source Code");
    assert_eq!(FindingSource::default(), FindingSource::Static);
    assert_eq!(Severity::Critical.label(), "Critical");
    assert_eq!(Category::InformationDisclosure.label(), "Information Disclosure");
    assert_eq!(Category::SSRF.label(), "SSRF");
}

#[test]
fn database_levels_map_to_finding_levels() {
    assert_eq!(map_severity(&vuln_db::Severity::Medium), Severity::Medium);
    assert_eq!(map_severity(&vuln_db::Severity::Critical), Severity::Critical);
    assert_eq!(map_category(&vuln_db::Category::ToolPoisoning), Category::ToolPoisoning);
    assert_eq!(map_category(&vuln_db::Category::SSRF), Category::SSRF);
}

#[test]
fn login_addresses() {
    assert_eq!(auth_start_url("https://app.krystawing.com"), "https://app.krystawing.com/api/auth/cli");
    assert_eq!(authorize_url("https://d", "abc"), "https://d/auth/cli?code=abc");
    assert_eq!(poll_url("https://d", "abc"), "https://d/api/auth/cli?code=abc");
}

#[test]
fn auth_codes_must_be_present() {
    assert_eq!(auth_code(Some("xyz".to_string())), Ok("xyz".to_string()));
    let failure = Err("Failed to get auth code from dashboard".to_string());
    assert_eq!(auth_code(Some(String::new())), failure);
    assert_eq!(auth_code(None), failure);
}

#[test]
fn polling_gives_up_after_ninety_polls() {
    assert_eq!(MAX_POLLS, 90);
    assert_eq!(next_poll(0), Ok(1));
    assert_eq!(next_poll(89), Ok(90));
    assert_eq!(next_poll(90), Err("Authorization timed out. Please try again.".to_string()));
}

#[test]
fn poll_answers() {
    assert!(matches!(poll_decision(Some("pending"), None), PollDecision::Wait));
    match poll_decision(Some("authorized"), Some("user-1")) {
        PollDecision::Authorized(u) => assert_eq!(u, "user-1"),
        _ => panic!("expected authorization"),
    }
    match poll_decision(Some("authorized"), None) {
        PollDecision::Authorized(u) => assert_eq!(u, ""),
        _ => panic!("expected authorization"),
    }
    match poll_decision(Some("expired"), None) {
        PollDecision::Fail(m) => assert_eq!(m, "Auth code expired. Please run krysta login again."),
        _ => panic!("expected a failure"),
    }
    match poll_decision(None, None) {
        PollDecision::Fail(m) => assert_eq!(m, "Unexpected response from dashboard."),
        _ => panic!("expected a failure"),
    }
    match poll_decision(Some("denied"), None) {
        PollDecision::Fail(m) => assert_eq!(m, "Unexpected response from dashboard."),
        _ => panic!("expected a failure"),
    }
    let c = KrystaConfig::new("user-1".to_string(), "https://d");
    assert_eq!((c.user_id.as_str(), c.dashboard.as_str()), ("user-1", "https://d"));
}

#[test]
fn text_helpers() {
    assert_eq!(str_trim("  a b \t\n"), "a b");
    let lines = split_lines(&"one\r\ntwo\n\nthree".chars().collect::<Vec<char>>());
    let lines: Vec<String> = lines.iter().map(|l| l.iter().collect()).collect();
    assert_eq!(lines, vec!["one", "two", "", "three"]);
    assert_eq!(join_strs(&vec!["license", "engines"], ", "), "license, engines");
    let mut s = String::new();
    push_zero_padded(&mut s, 7, 3);
    s.push(' ');
    push_zero_padded(&mut s, 1234, 3);
    s.push(' ');
    push_decimal(&mut s, 0);
    s.push(' ');
    push_signed_decimal(&mut s, -32601);
    assert_eq!(s, "007 1234 0 -32601");
}
