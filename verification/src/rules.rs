//! The migration ruleset, the curated heart of the linter.
//!
//! Each rule encodes one signature of a change introduced by the MCP 2026-07-28
//! spec, tied to the SEP / RFC that defines it, with a concrete fix. Rules are
//! conservative grep-style matchers, not a type checker: a finding is a prompt
//! to verify, and every one links the source so it can be confirmed.

pub use crate::level::Level;
use crate::pattern::{regex_compiles, Pattern};
use vstd::prelude::*;

verus! {

/// How a rule decides whether a file (or a line) trips it.
#[derive(Debug, Clone, Copy)]
pub enum Kind {
    /// Fires once per matching line.
    Line(&'static str),
    /// Fires once per file when `present` matches and `absent` does not: for
    /// "you do X but not the required Y" checks.
    FilePresentAbsent {
        /// Pattern that signals the file is in scope.
        present: &'static str,
        /// Pattern whose presence means the file is already compliant.
        absent: &'static str,
    },
}

/// A rule definition (static data).
#[derive(Debug, Clone, Copy)]
pub struct RuleSpec {
    /// Stable rule id, e.g. `spec.error_code`.
    pub id: &'static str,
    /// The SEP/RFC this rule is derived from.
    pub sep: &'static str,
    /// Severity.
    pub level: Level,
    /// How it matches.
    pub kind: Kind,
    /// What changed.
    pub message: &'static str,
    /// What to do about it.
    pub fix: &'static str,
    /// Source to verify against.
    pub url: &'static str,
}

/// The full ruleset, in the order in which rules are applied and listed.
pub open spec fn rule_table() -> Seq<RuleSpec> {
    seq![
        RuleSpec {
            id: "spec.error_code",
            sep: "SEP-2164",
            level: Level::Error,
            kind: Kind::Line("-32002\\b"),
            message: "The 2026-07-28 spec moves resource-not-found from the MCP-custom code -32002 to the JSON-RPC standard -32602 (Invalid Params). Error handling that hardcodes -32002 will mismatch.",
            fix: "Emit / expect -32602 for unknown resources; keep -32002 only behind an explicit back-compat shim.",
            url: "https://github.com/modelcontextprotocol/modelcontextprotocol/blob/main/seps/2164",
        },
        RuleSpec {
            id: "transport.stateful_session",
            sep: "SEP-2575",
            level: Level::Warning,
            kind: Kind::Line("(?i)mcp-session-id|sessionidgenerator\\s*:\\s*(?:\\(\\s*\\)|async|randomuuid|uuid|nanoid|crypto|generate)"),
            message: "The 2026-07-28 stateless-transport wave (SEP-2575 and the related session changes) removes the initialize/session handshake, and the Mcp-Session-Id header is going away. Sticky-session logic must be reviewed so the server works per-request.",
            fix: "In the TS SDK set `sessionIdGenerator: undefined` and `enableJsonResponse: true`, create a fresh server+transport per request, and drop any session store.",
            url: "https://blog.modelcontextprotocol.io/posts/2026-07-28-release-candidate/",
        },
        RuleSpec {
            id: "deprecated.sampling",
            sep: "SEP-2577",
            level: Level::Warning,
            kind: Kind::Line("sampling/createMessage|CreateMessageRequest"),
            message: "Sampling is deprecated in the 2026-07-28 spec (12-month removal window).",
            fix: "Replace server-initiated sampling with a direct LLM API call where you control the model and budget.",
            url: "https://github.com/modelcontextprotocol/modelcontextprotocol/blob/main/seps/2577-deprecate-roots-sampling-and-logging.md",
        },
        RuleSpec {
            id: "deprecated.roots",
            sep: "SEP-2577",
            level: Level::Warning,
            kind: Kind::Line("roots/list|ListRootsRequest"),
            message: "Roots is deprecated in the 2026-07-28 spec (12-month removal window).",
            fix: "Pass paths as explicit tool parameters or resource URIs instead of relying on client roots.",
            url: "https://github.com/modelcontextprotocol/modelcontextprotocol/blob/main/seps/2577-deprecate-roots-sampling-and-logging.md",
        },
        RuleSpec {
            id: "deprecated.logging",
            sep: "SEP-2577",
            level: Level::Warning,
            kind: Kind::Line("logging/setLevel|SetLevelRequest|[\"']notifications/message"),
            message: "Protocol logging is deprecated in the 2026-07-28 spec (12-month removal window).",
            fix: "Log to stderr (stdio servers) or emit OpenTelemetry spans instead of the logging capability.",
            url: "https://github.com/modelcontextprotocol/modelcontextprotocol/blob/main/seps/2577-deprecate-roots-sampling-and-logging.md",
        },
        RuleSpec {
            id: "protocol.old_version",
            sep: "—",
            level: Level::Info,
            kind: Kind::Line("2024-11-05|2025-03-26|2025-06-18"),
            message: "References a superseded MCP protocol-version date. The 2026-07-28 revision is final and current.",
            fix: "Advertise the latest protocol version you support and negotiate down; avoid hardcoding an old date in the handshake.",
            url: "https://modelcontextprotocol.io/specification",
        },
        RuleSpec {
            id: "auth.protected_resource_metadata",
            sep: "RFC 9728 / RFC 8707",
            level: Level::Info,
            kind: Kind::FilePresentAbsent {
                present: "(?i)www-authenticate",
                absent: "(?i)oauth-protected-resource|protected.?resource.?metadata|resource_metadata|resource_?indicator|8707|9728",
            },
            message: "This file looks like an OAuth resource server (it sends WWW-Authenticate) but shows no Protected Resource Metadata. The MCP authorization spec requires RFC 9728 (a /.well-known/oauth-protected-resource discovery endpoint) and RFC 8707 Resource Indicators.",
            fix: "Serve oauth-protected-resource metadata pointing at your auth server, and include the resource indicator in token requests to prevent audience confusion.",
            url: "https://workos.com/blog/mcp-2026-spec-agent-authentication",
        },
        RuleSpec {
            id: "auth.dcr_without_cimd",
            sep: "SEP-991 / spec 2026-07-28",
            level: Level::Warning,
            kind: Kind::FilePresentAbsent {
                present: "(?i)registration_endpoint",
                absent: "(?i)cimd|client_?id_?metadata",
            },
            message: "This file advertises a registration_endpoint (Dynamic Client Registration, RFC 7591) but shows no sign of OAuth Client ID Metadata Documents. The 2026-07-28 spec deprecates DCR in favour of CIMD (SEP-991); DCR remains available for backwards compatibility, so nothing breaks on the cutover date.",
            fix: "Advertise Client ID Metadata Document support (`client_id_metadata_document_supported: true`) and resolve client IDs by their metadata URL; keep the registration endpoint only as a documented fallback.",
            url: "https://modelcontextprotocol.io/specification/2026-07-28/basic/authorization/client-registration",
        }
    ]
}

/// The full ruleset.
pub fn rules() -> (v: Vec<RuleSpec>)
    ensures
        v@ == rule_table(),
{
    let mut v: Vec<RuleSpec> = Vec::new();
    v.push(
        RuleSpec {
            id: "spec.error_code",
            sep: "SEP-2164",
            level: Level::Error,
            kind: Kind::Line("-32002\\b"),
            message: "The 2026-07-28 spec moves resource-not-found from the MCP-custom code -32002 to the JSON-RPC standard -32602 (Invalid Params). Error handling that hardcodes -32002 will mismatch.",
            fix: "Emit / expect -32602 for unknown resources; keep -32002 only behind an explicit back-compat shim.",
            url: "https://github.com/modelcontextprotocol/modelcontextprotocol/blob/main/seps/2164",
        },
    );
    v.push(
        RuleSpec {
            id: "transport.stateful_session",
            sep: "SEP-2575",
            level: Level::Warning,
            kind: Kind::Line("(?i)mcp-session-id|sessionidgenerator\\s*:\\s*(?:\\(\\s*\\)|async|randomuuid|uuid|nanoid|crypto|generate)"),
            message: "The 2026-07-28 stateless-transport wave (SEP-2575 and the related session changes) removes the initialize/session handshake, and the Mcp-Session-Id header is going away. Sticky-session logic must be reviewed so the server works per-request.",
            fix: "In the TS SDK set `sessionIdGenerator: undefined` and `enableJsonResponse: true`, create a fresh server+transport per request, and drop any session store.",
            url: "https://blog.modelcontextprotocol.io/posts/2026-07-28-release-candidate/",
        },
    );
    v.push(
        RuleSpec {
            id: "deprecated.sampling",
            sep: "SEP-2577",
            level: Level::Warning,
            kind: Kind::Line("sampling/createMessage|CreateMessageRequest"),
            message: "Sampling is deprecated in the 2026-07-28 spec (12-month removal window).",
            fix: "Replace server-initiated sampling with a direct LLM API call where you control the model and budget.",
            url: "https://github.com/modelcontextprotocol/modelcontextprotocol/blob/main/seps/2577-deprecate-roots-sampling-and-logging.md",
        },
    );
    v.push(
        RuleSpec {
            id: "deprecated.roots",
            sep: "SEP-2577",
            level: Level::Warning,
            kind: Kind::Line("roots/list|ListRootsRequest"),
            message: "Roots is deprecated in the 2026-07-28 spec (12-month removal window).",
            fix: "Pass paths as explicit tool parameters or resource URIs instead of relying on client roots.",
            url: "https://github.com/modelcontextprotocol/modelcontextprotocol/blob/main/seps/2577-deprecate-roots-sampling-and-logging.md",
        },
    );
    v.push(
        RuleSpec {
            id: "deprecated.logging",
            sep: "SEP-2577",
            level: Level::Warning,
            kind: Kind::Line("logging/setLevel|SetLevelRequest|[\"']notifications/message"),
            message: "Protocol logging is deprecated in the 2026-07-28 spec (12-month removal window).",
            fix: "Log to stderr (stdio servers) or emit OpenTelemetry spans instead of the logging capability.",
            url: "https://github.com/modelcontextprotocol/modelcontextprotocol/blob/main/seps/2577-deprecate-roots-sampling-and-logging.md",
        },
    );
    v.push(
        RuleSpec {
            id: "protocol.old_version",
            sep: "—",
            level: Level::Info,
            kind: Kind::Line("2024-11-05|2025-03-26|2025-06-18"),
            message: "References a superseded MCP protocol-version date. The 2026-07-28 revision is final and current.",
            fix: "Advertise the latest protocol version you support and negotiate down; avoid hardcoding an old date in the handshake.",
            url: "https://modelcontextprotocol.io/specification",
        },
    );
    v.push(
        RuleSpec {
            id: "auth.protected_resource_metadata",
            sep: "RFC 9728 / RFC 8707",
            level: Level::Info,
            kind: Kind::FilePresentAbsent {
                present: "(?i)www-authenticate",
                absent: "(?i)oauth-protected-resource|protected.?resource.?metadata|resource_metadata|resource_?indicator|8707|9728",
            },
            message: "This file looks like an OAuth resource server (it sends WWW-Authenticate) but shows no Protected Resource Metadata. The MCP authorization spec requires RFC 9728 (a /.well-known/oauth-protected-resource discovery endpoint) and RFC 8707 Resource Indicators.",
            fix: "Serve oauth-protected-resource metadata pointing at your auth server, and include the resource indicator in token requests to prevent audience confusion.",
            url: "https://workos.com/blog/mcp-2026-spec-agent-authentication",
        },
    );
    v.push(
        RuleSpec {
            id: "auth.dcr_without_cimd",
            sep: "SEP-991 / spec 2026-07-28",
            level: Level::Warning,
            kind: Kind::FilePresentAbsent {
                present: "(?i)registration_endpoint",
                absent: "(?i)cimd|client_?id_?metadata",
            },
            message: "This file advertises a registration_endpoint (Dynamic Client Registration, RFC 7591) but shows no sign of OAuth Client ID Metadata Documents. The 2026-07-28 spec deprecates DCR in favour of CIMD (SEP-991); DCR remains available for backwards compatibility, so nothing breaks on the cutover date.",
            fix: "Advertise Client ID Metadata Document support (`client_id_metadata_document_supported: true`) and resolve client IDs by their metadata URL; keep the registration endpoint only as a documented fallback.",
            url: "https://modelcontextprotocol.io/specification/2026-07-28/basic/authorization/client-registration",
        },
    );
    v
}

/// Whether `s` starts with `prefix`.
pub open spec fn starts_with(s: Seq<char>, prefix: Seq<char>) -> bool {
    prefix.len() <= s.len() && s.take(prefix.len() as int) == prefix
}

/// The ruleset is well formed: it has eight rules with pairwise distinct ids;
/// every rule cites an `https://` source and carries a non-empty SEP label,
/// message and fix; exactly one rule (`spec.error_code`, the first) is
/// Error-level; and exactly the two authorization rules (the last two) are
/// file-level present/absent rules.
pub proof fn lemma_rule_table_well_formed()
    ensures
        rule_table().len() == 8,
        forall|i: int, j: int|
            0 <= i < j < rule_table().len() ==> #[trigger] rule_table()[i].id@ != #[trigger] rule_table()[j].id@,
        forall|i: int|
            0 <= i < rule_table().len() ==> starts_with(#[trigger] rule_table()[i].url@, "https://"@),
        forall|i: int|
            0 <= i < rule_table().len() ==> {
                &&& #[trigger] rule_table()[i].sep@.len() > 0
                &&& rule_table()[i].message@.len() > 0
                &&& rule_table()[i].fix@.len() > 0
            },
        forall|i: int|
            0 <= i < rule_table().len() ==> (#[trigger] rule_table()[i].level == Level::Error
                <==> i == 0),
        forall|i: int|
            0 <= i < rule_table().len() ==> (#[trigger] rule_table()[i].kind is FilePresentAbsent
                <==> (i == 6 || i == 7)),
{
    assert(rule_table().len() == 8);
    assert forall|i: int, j: int|
        0 <= i < j < rule_table().len() implies #[trigger] rule_table()[i].id@ != #[trigger] rule_table()[j].id@ by {
        reveal_strlit("spec.error_code");
        reveal_strlit("transport.stateful_session");
        reveal_strlit("deprecated.sampling");
        reveal_strlit("deprecated.roots");
        reveal_strlit("deprecated.logging");
        reveal_strlit("protocol.old_version");
        reveal_strlit("auth.protected_resource_metadata");
        reveal_strlit("auth.dcr_without_cimd");
        let a = rule_table()[i].id@;
        let b = rule_table()[j].id@;
        assert(a.len() != b.len() || a[a.len() - 1] != b[b.len() - 1] || a[0] != b[0] || a[11] != b[11] || a[14] != b[14]);
    }
    assert forall|i: int|
        0 <= i < rule_table().len() implies starts_with(#[trigger] rule_table()[i].url@, "https://"@) by {
        reveal_strlit("https://");
        reveal_strlit("https://blog.modelcontextprotocol.io/posts/2026-07-28-release-candidate/");
        reveal_strlit("https://github.com/modelcontextprotocol/modelcontextprotocol/blob/main/seps/2164");
        reveal_strlit("https://github.com/modelcontextprotocol/modelcontextprotocol/blob/main/seps/2577-deprecate-roots-sampling-and-logging.md");
        reveal_strlit("https://modelcontextprotocol.io/specification");
        reveal_strlit("https://modelcontextprotocol.io/specification/2026-07-28/basic/authorization/client-registration");
        reveal_strlit("https://workos.com/blog/mcp-2026-spec-agent-authentication");
        assert(rule_table()[i].url@.take(8) =~= "https://"@);
    }
    assert forall|i: int|
        0 <= i < rule_table().len() implies {
            &&& #[trigger] rule_table()[i].sep@.len() > 0
            &&& rule_table()[i].message@.len() > 0
            &&& rule_table()[i].fix@.len() > 0
        } by {
        reveal_strlit("RFC 9728 / RFC 8707");
        reveal_strlit("SEP-2164");
        reveal_strlit("SEP-2575");
        reveal_strlit("SEP-2577");
        reveal_strlit("SEP-991 / spec 2026-07-28");
        reveal_strlit("—");
        reveal_strlit("The 2026-07-28 spec moves resource-not-found from the MCP-custom code -32002 to the JSON-RPC standard -32602 (Invalid Params). Error handling that hardcodes -32002 will mismatch.");
        reveal_strlit("Emit / expect -32602 for unknown resources; keep -32002 only behind an explicit back-compat shim.");
        reveal_strlit("The 2026-07-28 stateless-transport wave (SEP-2575 and the related session changes) removes the initialize/session handshake, and the Mcp-Session-Id header is going away. Sticky-session logic must be reviewed so the server works per-request.");
        reveal_strlit("In the TS SDK set `sessionIdGenerator: undefined` and `enableJsonResponse: true`, create a fresh server+transport per request, and drop any session store.");
        reveal_strlit("Sampling is deprecated in the 2026-07-28 spec (12-month removal window).");
        reveal_strlit("Replace server-initiated sampling with a direct LLM API call where you control the model and budget.");
        reveal_strlit("Roots is deprecated in the 2026-07-28 spec (12-month removal window).");
        reveal_strlit("Pass paths as explicit tool parameters or resource URIs instead of relying on client roots.");
        reveal_strlit("Protocol logging is deprecated in the 2026-07-28 spec (12-month removal window).");
        reveal_strlit("Log to stderr (stdio servers) or emit OpenTelemetry spans instead of the logging capability.");
        reveal_strlit("References a superseded MCP protocol-version date. The 2026-07-28 revision is final and current.");
        reveal_strlit("Advertise the latest protocol version you support and negotiate down; avoid hardcoding an old date in the handshake.");
        reveal_strlit("This file looks like an OAuth resource server (it sends WWW-Authenticate) but shows no Protected Resource Metadata. The MCP authorization spec requires RFC 9728 (a /.well-known/oauth-protected-resource discovery endpoint) and RFC 8707 Resource Indicators.");
        reveal_strlit("Serve oauth-protected-resource metadata pointing at your auth server, and include the resource indicator in token requests to prevent audience confusion.");
        reveal_strlit("This file advertises a registration_endpoint (Dynamic Client Registration, RFC 7591) but shows no sign of OAuth Client ID Metadata Documents. The 2026-07-28 spec deprecates DCR in favour of CIMD (SEP-991); DCR remains available for backwards compatibility, so nothing breaks on the cutover date.");
        reveal_strlit("Advertise Client ID Metadata Document support (`client_id_metadata_document_supported: true`) and resolve client IDs by their metadata URL; keep the registration endpoint only as a documented fallback.");
    }
}

} // verus!

verus! {

/// Compiled form of [`Kind`].
#[derive(Debug)]
pub enum CompiledKind {
    /// Per-line regex.
    Line(Pattern),
    /// File-level present/absent pair.
    FilePresentAbsent {
        /// In-scope signal.
        present: Pattern,
        /// Already-compliant signal.
        absent: Pattern,
    },
}

/// A rule compiled for matching.
#[derive(Debug)]
pub struct CompiledRule {
    /// The originating spec.
    pub spec: RuleSpec,
    /// Compiled matcher.
    pub kind: CompiledKind,
}

/// A built-in pattern that the regex crate refused.
#[derive(Debug, Clone, Copy)]
pub struct InvalidRulePattern {
    /// Id of the rule that holds the pattern.
    pub rule: &'static str,
    /// The refused pattern.
    pub pattern: &'static str,
}

/// Whether every pattern of a rule kind is accepted by the regex crate.
pub open spec fn kind_compiles(kind: Kind) -> bool {
    match kind {
        Kind::Line(p) => regex_compiles(p@),
        Kind::FilePresentAbsent { present, absent } => regex_compiles(present@) && regex_compiles(
            absent@,
        ),
    }
}

/// The first pattern of a rule kind that the regex crate refuses (the line
/// pattern, or `present` before `absent`).
pub open spec fn first_invalid_pattern(kind: Kind) -> Seq<char> {
    match kind {
        Kind::Line(p) => p@,
        Kind::FilePresentAbsent { present, absent } => if !regex_compiles(present@) {
            present@
        } else {
            absent@
        },
    }
}

/// `compiled` holds regexes compiled from exactly the patterns of `kind`.
pub open spec fn compiled_from(compiled: CompiledKind, kind: Kind) -> bool {
    match (compiled, kind) {
        (CompiledKind::Line(p), Kind::Line(s)) => p@ == s@,
        (
            CompiledKind::FilePresentAbsent { present, absent },
            Kind::FilePresentAbsent { present: ps, absent: as_ },
        ) => present@ == ps@ && absent@ == as_@,
        _ => false,
    }
}

/// Compile one rule.
pub fn compile_rule(spec: RuleSpec) -> (res: Result<CompiledRule, InvalidRulePattern>)
    ensures
        res is Ok <==> kind_compiles(spec.kind),
        res matches Ok(cr) ==> cr.spec == spec && compiled_from(cr.kind, spec.kind),
        res matches Err(e) ==> e.rule == spec.id && e.pattern@ == first_invalid_pattern(spec.kind),
{
    match spec.kind {
        Kind::Line(p) => match Pattern::compile(p) {
            Ok(re) => Ok(CompiledRule { spec, kind: CompiledKind::Line(re) }),
            Err(_) => Err(InvalidRulePattern { rule: spec.id, pattern: p }),
        },
        Kind::FilePresentAbsent { present, absent } => {
            let present_re = match Pattern::compile(present) {
                Ok(re) => re,
                Err(_) => {
                    return Err(InvalidRulePattern { rule: spec.id, pattern: present });
                },
            };
            let absent_re = match Pattern::compile(absent) {
                Ok(re) => re,
                Err(_) => {
                    return Err(InvalidRulePattern { rule: spec.id, pattern: absent });
                },
            };
            Ok(
                CompiledRule {
                    spec,
                    kind: CompiledKind::FilePresentAbsent { present: present_re, absent: absent_re },
                },
            )
        },
    }
}

/// Compile the full ruleset. The patterns are authored in this crate, so an
/// error names the rule and the pattern that the regex crate refused.
pub fn compile() -> (res: Result<Vec<CompiledRule>, InvalidRulePattern>)
    ensures
        res is Ok <==> forall|i: int|
            0 <= i < rule_table().len() ==> kind_compiles(#[trigger] rule_table()[i].kind),
        res matches Ok(v) ==> {
            &&& v@.len() == rule_table().len()
            &&& forall|i: int|
                0 <= i < v@.len() ==> #[trigger] v@[i].spec == rule_table()[i] && compiled_from(
                    v@[i].kind,
                    rule_table()[i].kind,
                )
        },
        res matches Err(e) ==> exists|i: int|
            0 <= i < rule_table().len() && !kind_compiles(#[trigger] rule_table()[i].kind) && (
            forall|j: int| 0 <= j < i ==> kind_compiles(#[trigger] rule_table()[j].kind)) && e.rule
                == rule_table()[i].id && e.pattern@ == first_invalid_pattern(rule_table()[i].kind),
{
    let specs = rules();
    let mut out: Vec<CompiledRule> = Vec::new();
    let mut i: usize = 0;
    while i < specs.len()
        invariant
            specs@ == rule_table(),
            i <= specs@.len(),
            out@.len() == i,
            forall|j: int| 0 <= j < i ==> kind_compiles(#[trigger] rule_table()[j].kind),
            forall|j: int|
                0 <= j < i ==> #[trigger] out@[j].spec == rule_table()[j] && compiled_from(
                    out@[j].kind,
                    rule_table()[j].kind,
                ),
        decreases specs.len() - i,
    {
        match compile_rule(specs[i]) {
            Ok(cr) => {
                out.push(cr);
            },
            Err(e) => {
                return Err(e);
            },
        }
        i = i + 1;
    }
    Ok(out)
}

} // verus!

verus! {

/// The rules that [`compile`] returns have pairwise distinct ids, as the
/// ruleset does.
pub proof fn lemma_compiled_ids_distinct(v: Seq<CompiledRule>)
    requires
        v.len() == rule_table().len(),
        forall|i: int| 0 <= i < v.len() ==> #[trigger] v[i].spec == rule_table()[i],
    ensures
        forall|i: int, j: int|
            0 <= i < v.len() && 0 <= j < v.len() && i != j ==> #[trigger] v[i].spec.id@ != #[trigger] v[j].spec.id@,
{
    lemma_rule_table_well_formed();
    assert forall|i: int, j: int|
        0 <= i < v.len() && 0 <= j < v.len() && i != j implies #[trigger] v[i].spec.id@ != #[trigger] v[j].spec.id@ by {
        assert(v[i].spec == rule_table()[i]);
        assert(v[j].spec == rule_table()[j]);
        if i < j {
            assert(rule_table()[i].id@ != rule_table()[j].id@);
        } else {
            assert(rule_table()[j].id@ != rule_table()[i].id@);
        }
    }
}

} // verus!

verus! {

/// The ruleset is the documented one: in order, the rules `spec.error_code`
/// (error), `transport.stateful_session`, `deprecated.sampling`,
/// `deprecated.roots`, `deprecated.logging` (warnings),
/// `protocol.old_version`, `auth.protected_resource_metadata` (info) and
/// `auth.dcr_without_cimd` (warning).
pub proof fn lemma_documented_levels()
    ensures
        rule_table().map_values(|r: RuleSpec| (r.id@, r.level)) == seq![
            ("spec.error_code"@, Level::Error),
            ("transport.stateful_session"@, Level::Warning),
            ("deprecated.sampling"@, Level::Warning),
            ("deprecated.roots"@, Level::Warning),
            ("deprecated.logging"@, Level::Warning),
            ("protocol.old_version"@, Level::Info),
            ("auth.protected_resource_metadata"@, Level::Info),
            ("auth.dcr_without_cimd"@, Level::Warning),
        ],
{
    assert(rule_table().map_values(|r: RuleSpec| (r.id@, r.level)) =~= seq![
        ("spec.error_code"@, Level::Error),
        ("transport.stateful_session"@, Level::Warning),
        ("deprecated.sampling"@, Level::Warning),
        ("deprecated.roots"@, Level::Warning),
        ("deprecated.logging"@, Level::Warning),
        ("protocol.old_version"@, Level::Info),
        ("auth.protected_resource_metadata"@, Level::Info),
        ("auth.dcr_without_cimd"@, Level::Warning),
    ]);
}

} // verus!

verus! {

/// The patterns of a rule kind: the line pattern, or `present` then `absent`.
pub open spec fn kind_patterns(kind: Kind) -> Seq<Seq<char>> {
    match kind {
        Kind::Line(p) => seq![p@],
        Kind::FilePresentAbsent { present, absent } => seq![present@, absent@],
    }
}

/// The patterns of the ruleset, rule by rule in order: one line pattern for
/// each of the first six rules, and a `present` and an `absent` pattern for
/// each of the two file-level rules. In particular `spec.error_code` matches
/// `-32002\b` (the code followed by a word boundary) and
/// `protocol.old_version` matches the three superseded version dates.
pub proof fn lemma_documented_patterns()
    ensures
        rule_table().map_values(|r: RuleSpec| kind_patterns(r.kind)) == seq![
            seq!["-32002\\b"@],
            seq!["(?i)mcp-session-id|sessionidgenerator\\s*:\\s*(?:\\(\\s*\\)|async|randomuuid|uuid|nanoid|crypto|generate)"@],
            seq!["sampling/createMessage|CreateMessageRequest"@],
            seq!["roots/list|ListRootsRequest"@],
            seq!["logging/setLevel|SetLevelRequest|[\"']notifications/message"@],
            seq!["2024-11-05|2025-03-26|2025-06-18"@],
            seq!["(?i)www-authenticate"@, "(?i)oauth-protected-resource|protected.?resource.?metadata|resource_metadata|resource_?indicator|8707|9728"@],
            seq!["(?i)registration_endpoint"@, "(?i)cimd|client_?id_?metadata"@],
        ],
{
    assert(rule_table().map_values(|r: RuleSpec| kind_patterns(r.kind)) =~= seq![
            seq!["-32002\\b"@],
            seq!["(?i)mcp-session-id|sessionidgenerator\\s*:\\s*(?:\\(\\s*\\)|async|randomuuid|uuid|nanoid|crypto|generate)"@],
            seq!["sampling/createMessage|CreateMessageRequest"@],
            seq!["roots/list|ListRootsRequest"@],
            seq!["logging/setLevel|SetLevelRequest|[\"']notifications/message"@],
            seq!["2024-11-05|2025-03-26|2025-06-18"@],
            seq!["(?i)www-authenticate"@, "(?i)oauth-protected-resource|protected.?resource.?metadata|resource_metadata|resource_?indicator|8707|9728"@],
            seq!["(?i)registration_endpoint"@, "(?i)cimd|client_?id_?metadata"@],
    ]);
}

} // verus!
