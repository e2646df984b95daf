use vstd::prelude::*;

use crate::text::{opt_view, str_eq};
use crate::text::views;
use crate::types::{
    parse_ecosystem, severity_name, spec_parse_ecosystem, CheckResult, CompareResult, Ecosystem,
    Recommendation, Severity, Vulnerability,
};

verus! {

/// JSON-RPC error code: the request line is not valid JSON.
pub const PARSE_ERROR: i32 = -32700;

/// JSON-RPC error code: unknown method or tool.
pub const METHOD_NOT_FOUND: i32 = -32601;

/// JSON-RPC error code: the arguments of a tool call are invalid.
pub const INVALID_PARAMS: i32 = -32602;

/// Error code of a tool call that was valid but whose check failed.
pub const TOOL_FAILED: i32 = -32000;

/// The methods the tool server answers.
#[derive(Debug, Clone, Copy, PartialEq, Eq, Structural)]
pub enum Method {
    Initialize,
    InitializedNotification,
    ToolsList,
    ToolsCall,
    Ping,
    Unknown,
}

/// The method that a request's method name stands for.
pub open spec fn spec_classify_method(name: Seq<char>) -> Method {
    if name == "initialize"@ {
        Method::Initialize
    } else if name == "notifications/initialized"@ {
        Method::InitializedNotification
    } else if name == "tools/list"@ {
        Method::ToolsList
    } else if name == "tools/call"@ {
        Method::ToolsCall
    } else if name == "ping"@ {
        Method::Ping
    } else {
        Method::Unknown
    }
}

/// The method that a request's method name stands for.
pub fn classify_method(name: &str) -> (m: Method)
    ensures
        m == spec_classify_method(name@),
{
    if str_eq(name, "initialize") {
        Method::Initialize
    } else if str_eq(name, "notifications/initialized") {
        Method::InitializedNotification
    } else if str_eq(name, "tools/list") {
        Method::ToolsList
    } else if str_eq(name, "tools/call") {
        Method::ToolsCall
    } else if str_eq(name, "ping") {
        Method::Ping
    } else {
        Method::Unknown
    }
}

/// A request is handled when it has an id or is `initialize`; other requests
/// without an id are notifications and are skipped.
pub fn should_handle(has_id: bool, method: &str) -> (r: bool)
    ensures
        r == (has_id || method@ == "initialize"@),
{
    has_id || str_eq(method, "initialize")
}

/// Whether the answer to a handled request keeps the request's id: every
/// method's answer does but that of the `initialized` notification.
pub open spec fn keeps_request_id(m: Method) -> bool {
    m != Method::InitializedNotification
}

/// Whether the answer to a request keeps the request's id.
pub fn answer_keeps_id(m: Method) -> (r: bool)
    ensures
        r == keeps_request_id(m),
{
    match m {
        Method::InitializedNotification => false,
        _ => true,
    }
}

/// An answer is written out when it carries an id or answers `initialize`.
pub fn should_reply(answer_has_id: bool, method: &str) -> (r: bool)
    ensures
        r == (answer_has_id || method@ == "initialize"@),
{
    answer_has_id || str_eq(method, "initialize")
}

/// A JSON-RPC error: its code and message.
pub struct RpcError {
    pub code: i32,
    pub message: String,
}

fn rpc_error(code: i32, prefix: &str, detail: &str) -> (e: RpcError)
    ensures
        e.code == code,
        e.message@ == prefix@ + detail@,
{
    let mut message = String::from_str(prefix);
    message.append(detail);
    RpcError { code, message }
}

/// The error for a request line that is not valid JSON.
pub fn parse_error(detail: &str) -> (e: RpcError)
    ensures
        e.code == PARSE_ERROR,
        e.message@ == "Parse error: "@ + detail@,
{
    rpc_error(PARSE_ERROR, "Parse error: ", detail)
}

/// The error for a method that the server does not know.
pub fn method_not_found(method: &str) -> (e: RpcError)
    ensures
        e.code == METHOD_NOT_FOUND,
        e.message@ == "Method not found: "@ + method@,
{
    rpc_error(METHOD_NOT_FOUND, "Method not found: ", method)
}

/// The tools the server offers.
#[derive(Debug, Clone, Copy, PartialEq, Eq, Structural)]
pub enum Tool {
    CheckPackage,
    SuggestSafeVersion,
    CompareVersions,
}

/// The arguments of a tool call, as far as they are strings.
pub struct ToolArguments {
    pub ecosystem: Option<String>,
    pub package: Option<String>,
    pub version: Option<String>,
    pub from_version: Option<String>,
    pub to_version: Option<String>,
}

/// A tool call with valid arguments.
pub enum ToolCall {
    Check { ecosystem: Ecosystem, package: String, version: String },
    Suggest { ecosystem: Ecosystem, package: String },
    Compare { ecosystem: Ecosystem, package: String, from_version: String, to_version: String },
}

/// The view of an optional string, with `default` standing for a missing one.
pub open spec fn or_default(s: Option<String>, default: Seq<char>) -> Seq<char> {
    match opt_view(s) {
        Some(x) => x,
        None => default,
    }
}

/// The tool a tool name stands for.
pub open spec fn spec_tool(name: Seq<char>) -> Option<Tool> {
    if name == "check_package"@ {
        Some(Tool::CheckPackage)
    } else if name == "suggest_safe_version"@ {
        Some(Tool::SuggestSafeVersion)
    } else if name == "compare_versions"@ {
        Some(Tool::CompareVersions)
    } else {
        None
    }
}

/// The tool a tool name stands for, if any.
pub fn tool_named(name: &str) -> (t: Option<Tool>)
    ensures
        t == spec_tool(name@),
{
    if str_eq(name, "check_package") {
        Some(Tool::CheckPackage)
    } else if str_eq(name, "suggest_safe_version") {
        Some(Tool::SuggestSafeVersion)
    } else if str_eq(name, "compare_versions") {
        Some(Tool::CompareVersions)
    } else {
        None
    }
}

/// What a tool call comes to: an unknown tool is refused with
/// `METHOD_NOT_FOUND`; an ecosystem argument other than `npm` or `go` (case
/// ignored, missing read as empty) with `INVALID_PARAMS`; otherwise the call
/// with its arguments, a missing package or version read as empty, except a
/// missing version of `check_package`, which is `latest`.
pub open spec fn planned(name: Seq<char>, args: ToolArguments, r: Result<ToolCall, RpcError>) -> bool {
    let eco_text = or_default(args.ecosystem, ""@);
    match spec_tool(name) {
        None => r matches Err(e) && e.code == METHOD_NOT_FOUND && e.message@ == "Unknown tool: "@
            + name,
        Some(tool) => match spec_parse_ecosystem(eco_text) {
            None => r matches Err(e) && e.code == INVALID_PARAMS && e.message@
                == "Invalid ecosystem: "@ + eco_text,
            Some(eco) => match tool {
                Tool::CheckPackage => r matches Ok(ToolCall::Check { ecosystem, package, version })
                    && ecosystem == eco && package@ == or_default(args.package, ""@) && version@
                    == or_default(args.version, "latest"@),
                Tool::SuggestSafeVersion => r matches Ok(ToolCall::Suggest { ecosystem, package })
                    && ecosystem == eco && package@ == or_default(args.package, ""@),
                Tool::CompareVersions => r matches Ok(
                    ToolCall::Compare { ecosystem, package, from_version, to_version },
                ) && ecosystem == eco && package@ == or_default(args.package, ""@) && from_version@
                    == or_default(args.from_version, ""@) && to_version@ == or_default(
                    args.to_version,
                    ""@,
                ),
            },
        },
    }
}

fn take_or(s: Option<String>, default: &str) -> (r: String)
    ensures
        r@ == or_default(s, default@),
{
    match s {
        Some(x) => x,
        None => String::from_str(default),
    }
}

/// Checks the name and arguments of a tool call and says what to run.
pub fn plan_tool_call(name: &str, args: ToolArguments) -> (r: Result<ToolCall, RpcError>)
    ensures
        planned(name@, args, r),
{
    let tool = match tool_named(name) {
        Some(t) => t,
        None => {
            return Err(rpc_error(METHOD_NOT_FOUND, "Unknown tool: ", name));
        },
    };
    let ghost args0 = args;
    let ToolArguments { ecosystem, package, version, from_version, to_version } = args;
    let eco_text = take_or(ecosystem, "");
    let eco = match parse_ecosystem(eco_text.as_str()) {
        Some(e) => e,
        None => {
            return Err(rpc_error(INVALID_PARAMS, "Invalid ecosystem: ", eco_text.as_str()));
        },
    };
    let package = take_or(package, "");
    match tool {
        Tool::CheckPackage => Ok(
            ToolCall::Check { ecosystem: eco, package, version: take_or(version, "latest") },
        ),
        Tool::SuggestSafeVersion => Ok(ToolCall::Suggest { ecosystem: eco, package }),
        Tool::CompareVersions => Ok(
            ToolCall::Compare {
                ecosystem: eco,
                package,
                from_version: take_or(from_version, ""),
                to_version: take_or(to_version, ""),
            },
        ),
    }
}

/// The message that opens the error of a failed tool call.
pub open spec fn failure_prefix(tool: Tool) -> Seq<char> {
    match tool {
        Tool::CheckPackage => "Check failed: "@,
        Tool::SuggestSafeVersion => "Suggest failed: "@,
        Tool::CompareVersions => "Compare failed: "@,
    }
}

/// The error of a tool call whose check failed with `detail`.
pub fn tool_failure(tool: Tool, detail: &str) -> (e: RpcError)
    ensures
        e.code == TOOL_FAILED,
        e.message@ == failure_prefix(tool) + detail@,
{
    match tool {
        Tool::CheckPackage => rpc_error(TOOL_FAILED, "Check failed: ", detail),
        Tool::SuggestSafeVersion => rpc_error(TOOL_FAILED, "Suggest failed: ", detail),
        Tool::CompareVersions => rpc_error(TOOL_FAILED, "Compare failed: ", detail),
    }
}

/// The command line that repeats a check from the shell.
pub fn full_response_command(result: &CheckResult) -> (s: String)
    ensures
        s@ == "palsphere check "@ + result.ecosystem@ + " "@ + result.package@ + " "@
            + result.version@,
{
    let mut s = String::from_str("palsphere check ");
    s.append(result.ecosystem.as_str());
    s.append(" ");
    s.append(result.package.as_str());
    s.append(" ");
    s.append(result.version.as_str());
    s
}

/// How the tool server names a recommendation in its answers.
pub open spec fn recommendation_name(r: Recommendation) -> Seq<char> {
    match r {
        Recommendation::Block => "Block"@,
        Recommendation::Review => "Review"@,
        Recommendation::Allow => "Allow"@,
        Recommendation::Unknown => "Unknown"@,
    }
}

/// The name of a recommendation in the tool server's answers.
pub fn recommendation_text(r: Recommendation) -> (s: &'static str)
    ensures
        s@ == recommendation_name(r),
{
    match r {
        Recommendation::Block => "Block",
        Recommendation::Review => "Review",
        Recommendation::Allow => "Allow",
        Recommendation::Unknown => "Unknown",
    }
}

/// The name of an optional severity in an answer.
pub open spec fn severity_text(s: Option<Severity>) -> Option<Seq<char>> {
    match s {
        Some(x) => Some(severity_name(x)),
        None => None,
    }
}

fn optional_severity_text(s: Option<Severity>) -> (r: Option<String>)
    ensures
        opt_view(r) == severity_text(s),
{
    match s {
        Some(x) => Some(String::from_str(x.name())),
        None => None,
    }
}

fn copy_opt(s: &Option<String>) -> (r: Option<String>)
    ensures
        opt_view(r) == opt_view(*s),
{
    match s {
        Some(x) => Some(x.clone()),
        None => None,
    }
}

fn copy_strings(v: &Vec<String>) -> (r: Vec<String>)
    ensures
        views(r@) == views(v@),
{
    let mut r: Vec<String> = Vec::new();
    let mut i: usize = 0;
    while i < v.len()
        invariant
            i <= v@.len(),
            views(r@) == views(v@).take(i as int),
        decreases v@.len() - i,
    {
        let ghost before = r@;
        let x = v[i].clone();
        r.push(x);
        assert(r@ == before.push(x));
        assert(views(r@) =~= views(before).push(x@));
        assert(views(v@).take(i + 1) =~= views(v@).take(i as int).push(v@[i as int]@));
        assert(views(r@) =~= views(v@).take(i + 1));
        i = i + 1;
    }
    assert(views(v@).take(v@.len() as int) =~= views(v@));
    r
}

/// One vulnerability in the answer to `check_package`.
pub struct VulnerabilityAnswer {
    pub id: String,
    pub summary: Option<String>,
    pub severity: Option<String>,
    pub fixed_versions: Vec<String>,
}

/// The answer to `check_package`.
pub struct CheckAnswer {
    pub ecosystem: String,
    pub package: String,
    pub version: String,
    pub known_vulnerabilities_found: bool,
    pub safe_to_use: bool,
    pub risk_score: u8,
    pub recommendation: String,
    pub reason: String,
    pub summary: String,
    pub vulnerability_count: usize,
    pub highest_severity: Option<String>,
    pub vulnerabilities: Vec<VulnerabilityAnswer>,
    pub full_response_command: String,
}

/// `a` reports the vulnerability `v`.
pub open spec fn answers_vulnerability(a: VulnerabilityAnswer, v: Vulnerability) -> bool {
    &&& a.id@ == v.id@
    &&& opt_view(a.summary) == opt_view(v.summary)
    &&& opt_view(a.severity) == severity_text(v.severity)
    &&& views(a.fixed_versions@) == views(v.fixed_versions@)
}

/// The answer to `check_package` for the check `r`: its fields, the
/// recommendation and severities by name, and the command that repeats it.
pub fn check_answer(r: &CheckResult) -> (a: CheckAnswer)
    ensures
        a.ecosystem@ == r.ecosystem@,
        a.package@ == r.package@,
        a.version@ == r.version@,
        a.known_vulnerabilities_found == r.known_vulnerabilities_found,
        a.safe_to_use == r.safe_to_use,
        a.risk_score == r.risk_score,
        a.recommendation@ == recommendation_name(r.recommendation),
        a.reason@ == r.reason@,
        a.summary@ == r.summary@,
        a.vulnerability_count == r.vulnerability_count,
        opt_view(a.highest_severity) == severity_text(r.highest_severity),
        a.vulnerabilities@.len() == r.vulnerabilities@.len(),
        forall|i: int|
            0 <= i < r.vulnerabilities@.len() ==> answers_vulnerability(
                #[trigger] a.vulnerabilities@[i],
                r.vulnerabilities@[i],
            ),
        a.full_response_command@ == "palsphere check "@ + r.ecosystem@ + " "@ + r.package@ + " "@
            + r.version@,
{
    let mut vulnerabilities: Vec<VulnerabilityAnswer> = Vec::new();
    let mut i: usize = 0;
    while i < r.vulnerabilities.len()
        invariant
            i <= r.vulnerabilities@.len(),
            vulnerabilities@.len() == i,
            forall|j: int|
                0 <= j < i ==> answers_vulnerability(#[trigger] vulnerabilities@[j], r.vulnerabilities@[j]),
        decreases r.vulnerabilities@.len() - i,
    {
        let v = &r.vulnerabilities[i];
        vulnerabilities.push(
            VulnerabilityAnswer {
                id: v.id.clone(),
                summary: copy_opt(&v.summary),
                severity: optional_severity_text(v.severity),
                fixed_versions: copy_strings(&v.fixed_versions),
            },
        );
        i = i + 1;
    }
    CheckAnswer {
        ecosystem: r.ecosystem.clone(),
        package: r.package.clone(),
        version: r.version.clone(),
        known_vulnerabilities_found: r.known_vulnerabilities_found,
        safe_to_use: r.safe_to_use,
        risk_score: r.risk_score,
        recommendation: String::from_str(recommendation_text(r.recommendation)),
        reason: r.reason.clone(),
        summary: r.summary.clone(),
        vulnerability_count: r.vulnerability_count,
        highest_severity: optional_severity_text(r.highest_severity),
        vulnerabilities,
        full_response_command: full_response_command(r),
    }
}

/// The answer to `suggest_safe_version`.
pub struct SuggestAnswer {
    pub package: String,
    pub version: String,
    pub safe_to_use: bool,
    pub risk_score: u8,
    pub recommendation: String,
    pub summary: String,
}

/// The answer to `suggest_safe_version` for the check `r` it settled on.
pub fn suggest_answer(r: &CheckResult) -> (a: SuggestAnswer)
    ensures
        a.package@ == r.package@,
        a.version@ == r.version@,
        a.safe_to_use == r.safe_to_use,
        a.risk_score == r.risk_score,
        a.recommendation@ == recommendation_name(r.recommendation),
        a.summary@ == r.summary@,
{
    SuggestAnswer {
        package: r.package.clone(),
        version: r.version.clone(),
        safe_to_use: r.safe_to_use,
        risk_score: r.risk_score,
        recommendation: String::from_str(recommendation_text(r.recommendation)),
        summary: r.summary.clone(),
    }
}

/// The answer to `compare_versions`.
pub struct CompareAnswer {
    pub from_version: String,
    pub to_version: String,
    pub from_risk_score: u8,
    pub to_risk_score: u8,
    pub risk_improved: bool,
    pub recommendation: String,
    pub next_action: String,
    pub resolved: Vec<String>,
    pub added: Vec<String>,
}

/// The answer to `compare_versions` for the comparison `r`.
pub fn compare_answer(r: &CompareResult) -> (a: CompareAnswer)
    ensures
        a.from_version@ == r.from_version@,
        a.to_version@ == r.to_version@,
        a.from_risk_score == r.from_risk_score,
        a.to_risk_score == r.to_risk_score,
        a.risk_improved == r.risk_improved,
        a.recommendation@ == recommendation_name(r.recommendation),
        a.next_action@ == r.next_action@,
        views(a.resolved@) == views(r.resolved_vulnerabilities@),
        views(a.added@) == views(r.added_vulnerabilities@),
{
    CompareAnswer {
        from_version: r.from_version.clone(),
        to_version: r.to_version.clone(),
        from_risk_score: r.from_risk_score,
        to_risk_score: r.to_risk_score,
        risk_improved: r.risk_improved,
        recommendation: String::from_str(recommendation_text(r.recommendation)),
        next_action: r.next_action.clone(),
        resolved: copy_strings(&r.resolved_vulnerabilities),
        added: copy_strings(&r.added_vulnerabilities),
    }
}

/// What the server answers a handled request with.
pub enum Reply {
    /// The server description.
    Initialize,
    /// Nothing but the envelope.
    Empty,
    /// The list of tools.
    ToolList,
    /// The answer of a tool call to run.
    Tool(ToolCall),
    /// An empty object.
    Pong,
    /// An error.
    Failure(RpcError),
}

/// `reply` is what the server answers a request for `method`; for a tool
/// call, `tool_name` and `args` are its name and arguments.
pub open spec fn replies(method: Seq<char>, tool_name: Seq<char>, args: ToolArguments, reply: Reply) -> bool {
    match spec_classify_method(method) {
        Method::Initialize => reply is Initialize,
        Method::InitializedNotification => reply is Empty,
        Method::ToolsList => reply is ToolList,
        Method::Ping => reply is Pong,
        Method::ToolsCall => match reply {
            Reply::Tool(c) => planned(tool_name, args, Ok(c)),
            Reply::Failure(e) => planned(tool_name, args, Err(e)),
            _ => false,
        },
        Method::Unknown => reply matches Reply::Failure(e) && e.code == METHOD_NOT_FOUND
            && e.message@ == "Method not found: "@ + method,
    }
}

/// Decides the answer to a handled request.
pub fn plan_reply(method: &str, tool_name: &str, args: ToolArguments) -> (reply: Reply)
    ensures
        replies(method@, tool_name@, args, reply),
{
    match classify_method(method) {
        Method::Initialize => Reply::Initialize,
        Method::InitializedNotification => Reply::Empty,
        Method::ToolsList => Reply::ToolList,
        Method::Ping => Reply::Pong,
        Method::ToolsCall => match plan_tool_call(tool_name, args) {
            Ok(c) => Reply::Tool(c),
            Err(e) => Reply::Failure(e),
        },
        Method::Unknown => Reply::Failure(method_not_found(method)),
    }
}

/// A request is answered with its own id exactly when it is not the
/// `notifications/initialized` notification: `initialize`, `tools/list`,
/// `tools/call`, `ping` and unknown methods all keep the id.
pub proof fn law_answers_keep_id(method: Seq<char>)
    ensures
        keeps_request_id(spec_classify_method(method)) <==> method != "notifications/initialized"@,
        method == "tools/call"@ ==> keeps_request_id(spec_classify_method(method)),
{
    reveal_strlit("initialize");
    reveal_strlit("notifications/initialized");
    reveal_strlit("tools/call");
    assert("initialize"@.len() == 10);
    assert("notifications/initialized"@.len() == 25);
    assert("tools/call"@.len() == 10);
    assert("initialize"@ != "notifications/initialized"@);
    assert("tools/call"@ != "notifications/initialized"@);
}

/// A request with an id other than the `initialized` notification is
/// handled, and its answer, which keeps the id, is written out.
pub proof fn law_requests_with_id_are_answered(method: Seq<char>)
    requires
        method != "notifications/initialized"@,
    ensures
        keeps_request_id(spec_classify_method(method)),
        (true || method == "initialize"@),
        (keeps_request_id(spec_classify_method(method)) || method == "initialize"@),
{
    law_answers_keep_id(method);
}

} // verus!
