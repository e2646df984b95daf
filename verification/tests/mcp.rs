use palsphere::checker::{check_result_at, compare_results};
use palsphere::mcp::{
    check_answer, compare_answer, plan_reply, recommendation_text, suggest_answer, Reply,
    answer_keeps_id, classify_method, full_response_command, method_not_found, parse_error, plan_tool_call,
    should_handle, should_reply, tool_failure, Method, Tool, ToolArguments, ToolCall, INVALID_PARAMS,
    METHOD_NOT_FOUND, PARSE_ERROR, TOOL_FAILED,
};
use palsphere::types::{Ecosystem, Recommendation, Severity, Vulnerability};

fn args(eco: Option<&str>, pkg: Option<&str>, ver: Option<&str>, from: Option<&str>, to: Option<&str>) -> ToolArguments {
    let own = |s: Option<&str>| s.map(|x| x.to_string());
    ToolArguments { ecosystem: own(eco), package: own(pkg), version: own(ver), from_version: own(from), to_version: own(to) }
}

#[test]
fn methods() {
    assert_eq!(classify_method("initialize"), Method::Initialize);
    assert_eq!(classify_method("notifications/initialized"), Method::InitializedNotification);
    assert_eq!(classify_method("tools/list"), Method::ToolsList);
    assert_eq!(classify_method("tools/call"), Method::ToolsCall);
    assert_eq!(classify_method("ping"), Method::Ping);
    assert_eq!(classify_method("resources/list"), Method::Unknown);
}

#[test]
fn notifications_are_skipped() {
    assert!(should_handle(true, "tools/list"));
    assert!(should_handle(false, "initialize"));
    assert!(!should_handle(false, "notifications/initialized"));
    assert!(!should_handle(false, "ping"));
}

#[test]
fn replies() {
    assert!(should_reply(true, "ping"));
    assert!(should_reply(false, "initialize"));
    assert!(!should_reply(false, "notifications/initialized"));
    assert!(!answer_keeps_id(Method::InitializedNotification));
    assert!(answer_keeps_id(Method::Unknown));
    assert!(answer_keeps_id(Method::Initialize));
}

#[test]
fn check_call_defaults_to_latest() {
    match plan_tool_call("check_package", args(Some("NPM"), Some("lodash"), None, None, None)) {
        Ok(ToolCall::Check { ecosystem, package, version }) => {
            assert_eq!(ecosystem, Ecosystem::Npm);
            assert_eq!(package, "lodash");
            assert_eq!(version, "latest");
        }
        _ => panic!("expected a check"),
    }
}

#[test]
fn suggest_and_compare_calls() {
    match plan_tool_call("suggest_safe_version", args(Some("go"), Some("golang.org/x/net"), None, None, None)) {
        Ok(ToolCall::Suggest { ecosystem, package }) => {
            assert_eq!(ecosystem, Ecosystem::Go);
            assert_eq!(package, "golang.org/x/net");
        }
        _ => panic!("expected a suggestion"),
    }
    match plan_tool_call("compare_versions", args(Some("npm"), None, None, Some("1.0.0"), None)) {
        Ok(ToolCall::Compare { ecosystem, package, from_version, to_version }) => {
            assert_eq!(ecosystem, Ecosystem::Npm);
            assert_eq!(package, "");
            assert_eq!(from_version, "1.0.0");
            assert_eq!(to_version, "");
        }
        _ => panic!("expected a comparison"),
    }
}

#[test]
fn unknown_tool() {
    match plan_tool_call("delete_package", args(Some("npm"), None, None, None, None)) {
        Err(e) => {
            assert_eq!(e.code, METHOD_NOT_FOUND);
            assert_eq!(e.message, "Unknown tool: delete_package");
        }
        Ok(_) => panic!("expected an error"),
    }
    match plan_tool_call("", args(None, None, None, None, None)) {
        Err(e) => {
            assert_eq!(e.code, -32601);
            assert_eq!(e.message, "Unknown tool: ");
        }
        Ok(_) => panic!("expected an error"),
    }
}

#[test]
fn invalid_ecosystem() {
    match plan_tool_call("check_package", args(Some("pypi"), Some("requests"), None, None, None)) {
        Err(e) => {
            assert_eq!(e.code, INVALID_PARAMS);
            assert_eq!(e.message, "Invalid ecosystem: pypi");
        }
        Ok(_) => panic!("expected an error"),
    }
    match plan_tool_call("compare_versions", args(None, None, None, None, None)) {
        Err(e) => {
            assert_eq!(e.code, -32602);
            assert_eq!(e.message, "Invalid ecosystem: ");
        }
        Ok(_) => panic!("expected an error"),
    }
}

#[test]
fn error_messages() {
    let e = parse_error("expected value at line 1 column 1");
    assert_eq!(e.code, PARSE_ERROR);
    assert_eq!(e.code, -32700);
    assert_eq!(e.message, "Parse error: expected value at line 1 column 1");
    let e = method_not_found("resources/list");
    assert_eq!(e.code, -32601);
    assert_eq!(e.message, "Method not found: resources/list");
    let e = tool_failure(Tool::CheckPackage, "timeout");
    assert_eq!(e.code, TOOL_FAILED);
    assert_eq!(e.code, -32000);
    assert_eq!(e.message, "Check failed: timeout");
    assert_eq!(tool_failure(Tool::SuggestSafeVersion, "x").message, "Suggest failed: x");
    assert_eq!(tool_failure(Tool::CompareVersions, "y").message, "Compare failed: y");
}

#[test]
fn repeat_command() {
    let r = check_result_at(&Ecosystem::Go, "golang.org/x/crypto", "v0.1.0".to_string(), Vec::new(), String::new());
    assert_eq!(full_response_command(&r), "palsphere check Go golang.org/x/crypto v0.1.0");
}

fn vuln_with(id: &str, severity: Option<Severity>) -> Vulnerability {
    Vulnerability {
        id: id.to_string(),
        summary: Some("s".to_string()),
        severity,
        fixed_versions: vec!["1.0.1".to_string()],
        advisory_url: None,
    }
}

#[test]
fn check_answer_fields() {
    let r = check_result_at(
        &Ecosystem::Npm,
        "lodash",
        "4.17.20".to_string(),
        vec![vuln_with("GHSA-1", Some(Severity::High)), vuln_with("GHSA-2", None)],
        String::new(),
    );
    let a = check_answer(&r);
    assert_eq!(a.ecosystem, "npm");
    assert_eq!(a.recommendation, "Block");
    assert_eq!(a.highest_severity.as_deref(), Some("high"));
    assert_eq!(a.vulnerability_count, 2);
    assert_eq!(a.vulnerabilities.len(), 2);
    assert_eq!(a.vulnerabilities[0].severity.as_deref(), Some("high"));
    assert_eq!(a.vulnerabilities[1].severity, None);
    assert_eq!(a.vulnerabilities[1].fixed_versions, vec!["1.0.1"]);
    assert_eq!(a.full_response_command, "palsphere check npm lodash 4.17.20");
    assert!(!a.safe_to_use);
}

#[test]
fn suggest_and_compare_answers() {
    let a = check_result_at(&Ecosystem::Npm, "p", "1.0.0".to_string(), vec![vuln_with("A", Some(Severity::High))], String::new());
    let b = check_result_at(&Ecosystem::Npm, "p", "2.0.0".to_string(), Vec::new(), String::new());
    let s = suggest_answer(&b);
    assert_eq!(s.version, "2.0.0");
    assert_eq!(s.recommendation, "Allow");
    assert!(s.safe_to_use);
    let c = compare_answer(&compare_results(&Ecosystem::Npm, "p", "1.0.0", "2.0.0", &a, &b));
    assert_eq!(c.resolved, vec!["A"]);
    assert!(c.added.is_empty());
    assert_eq!(c.next_action, "upgrade_to_target");
    assert_eq!(c.recommendation, "Allow");
    assert_eq!(recommendation_text(Recommendation::Review), "Review");
    assert_eq!(recommendation_text(Recommendation::Unknown), "Unknown");
}

#[test]
fn replies_by_method() {
    let none = || args(None, None, None, None, None);
    assert!(matches!(plan_reply("initialize", "", none()), Reply::Initialize));
    assert!(matches!(plan_reply("notifications/initialized", "", none()), Reply::Empty));
    assert!(matches!(plan_reply("tools/list", "", none()), Reply::ToolList));
    assert!(matches!(plan_reply("ping", "", none()), Reply::Pong));
    match plan_reply("tools/call", "check_package", args(Some("go"), Some("m"), Some("v1.0.0"), None, None)) {
        Reply::Tool(ToolCall::Check { ecosystem, version, .. }) => {
            assert_eq!(ecosystem, Ecosystem::Go);
            assert_eq!(version, "v1.0.0");
        }
        _ => panic!("expected a tool call"),
    }
    match plan_reply("tools/call", "nope", none()) {
        Reply::Failure(e) => assert_eq!(e.message, "Unknown tool: nope"),
        _ => panic!("expected an error"),
    }
    match plan_reply("resources/list", "", none()) {
        Reply::Failure(e) => {
            assert_eq!(e.code, -32601);
            assert_eq!(e.message, "Method not found: resources/list");
        }
        _ => panic!("expected an error"),
    }
}
