//! SARIF 2.1.0 output with real `file:line` locations, for GitHub code scanning.
//!
//! The document is first computed as a plain model ([`SarifLog`]), whose
//! contract says what every descriptor and result holds; [`to_sarif`] then
//! writes the model out as a `serde_json::Value`.

use crate::finding::{views, Finding, FindingView, Report};
use crate::level::Level;
use crate::order::{bytes_order, compare_bytes, lemma_bytes_order};
use crate::rules::{rule_table, rules, RuleSpec};
use vstd::prelude::*;
use vstd::string::*;
use vstd::utf8::{encode_utf8, encode_utf8_decode_utf8};

verus! {

/// Where the tool's home page lives.
pub const INFO_URI: &'static str = "https://github.com/studiomeyer-io/mcp-herald";

/// The tool version reported in the SARIF driver.
pub const TOOL_VERSION: &'static str = "0.2.0";

/// The SARIF level of a severity.
pub open spec fn sarif_level(level: Level) -> Seq<char> {
    match level {
        Level::Error => "error"@,
        Level::Warning => "warning"@,
        Level::Info => "note"@,
    }
}

/// The SARIF level of a severity: Error is `error`, Warning is `warning`, Info
/// is `note`.
pub fn level_str(level: Level) -> (s: &'static str)
    ensures
        s@ == sarif_level(level),
{
    match level {
        Level::Error => "error",
        Level::Warning => "warning",
        Level::Info => "note",
    }
}

/// A rule descriptor of the SARIF driver.
#[derive(Debug, Clone, Copy)]
pub struct SarifRule {
    pub id: &'static str,
    pub short_description: &'static str,
    pub help_uri: &'static str,
    pub level: &'static str,
}

/// One SARIF result.
#[derive(Debug, Clone)]
pub struct SarifResult {
    pub rule_id: &'static str,
    pub level: &'static str,
    pub message: String,
    pub uri: String,
    pub start_line: usize,
}

/// A SARIF log with one run: the descriptors of the rules that fired and one
/// result per finding.
#[derive(Debug, Clone)]
pub struct SarifLog {
    pub rules: Vec<SarifRule>,
    pub results: Vec<SarifResult>,
}

/// The index of the first rule of `t` with the given id, if any.
pub open spec fn rule_index(t: Seq<RuleSpec>, id: Seq<char>) -> Option<int> {
    if exists|i: int| 0 <= i < t.len() && #[trigger] t[i].id@ == id {
        Some(
            choose|i: int|
                0 <= i < t.len() && #[trigger] t[i].id@ == id && forall|j: int|
                    0 <= j < i ==> #[trigger] t[j].id@ != id,
        )
    } else {
        None
    }
}

/// The descriptor of the rule `id`: its message, source and level from the
/// ruleset, or an empty description, the tool's home page and `warning` for an
/// id the ruleset does not know.
pub open spec fn descriptor_matches(d: SarifRule) -> bool {
    match rule_index(rule_table(), d.id@) {
        Some(i) => {
            &&& d.short_description@ == rule_table()[i].message@
            &&& d.help_uri@ == rule_table()[i].url@
            &&& d.level@ == sarif_level(rule_table()[i].level)
        },
        None => {
            &&& d.short_description@ == ""@
            &&& d.help_uri@ == INFO_URI@
            &&& d.level@ == "warning"@
        },
    }
}

/// The message of a result: what changed, the source in brackets, and the fix.
pub open spec fn result_message(f: FindingView) -> Seq<char> {
    f.message + " ["@ + f.sep + "] Fix: "@ + f.fix
}

/// The SARIF result of a finding. Its start line is the finding's line, and at
/// least 1.
pub open spec fn result_matches(r: SarifResult, f: FindingView) -> bool {
    &&& r.rule_id@ == f.rule
    &&& r.level@ == sarif_level(f.level)
    &&& r.message@ == result_message(f)
    &&& r.uri@ == f.file
    &&& r.start_line == if f.line >= 1 {
        f.line
    } else {
        1
    }
}

/// The descriptors `d` name exactly the rules that fired in `s`, each once, in
/// ascending order of id.
pub open spec fn fired_rules(d: Seq<SarifRule>, s: Seq<FindingView>) -> bool {
    &&& forall|k: int, l: int|
        0 <= k < l < d.len() ==> bytes_order(encode_utf8(#[trigger] d[k].id@), encode_utf8(#[trigger] d[l].id@)) < 0
    &&& forall|i: int| 0 <= i < s.len() ==> names_rule(d, #[trigger] s[i].rule)
    &&& forall|k: int| 0 <= k < d.len() ==> rule_fired(s, #[trigger] d[k].id@)
}

/// Whether some descriptor of `d` has the id `id`.
pub open spec fn names_rule(d: Seq<SarifRule>, id: Seq<char>) -> bool {
    exists|k: int| 0 <= k < d.len() && #[trigger] d[k].id@ == id
}

/// Whether some finding of `s` was reported by the rule `id`.
pub open spec fn rule_fired(s: Seq<FindingView>, id: Seq<char>) -> bool {
    exists|i: int| 0 <= i < s.len() && #[trigger] s[i].rule == id
}

proof fn lemma_encode_injective(a: Seq<char>, b: Seq<char>)
    requires
        encode_utf8(a) == encode_utf8(b),
    ensures
        a == b,
{
    encode_utf8_decode_utf8(a);
    encode_utf8_decode_utf8(b);
}

fn same_str(a: &str, b: &str) -> (r: bool)
    ensures
        r == (a@ == b@),
{
    let c = compare_bytes(a.as_bytes(), b.as_bytes());
    proof {
        lemma_bytes_order(encode_utf8(a@), encode_utf8(b@), encode_utf8(b@));
        if c == 0 {
            lemma_encode_injective(a@, b@);
        }
    }
    c == 0
}

/// Find the first rule of the ruleset with the given id.
fn find_rule(table: &Vec<RuleSpec>, id: &str) -> (r: Option<usize>)
    requires
        table@ == rule_table(),
    ensures
        match r {
            Some(i) => rule_index(rule_table(), id@) == Some(i as int),
            None => rule_index(rule_table(), id@) is None,
        },
{
    let mut i: usize = 0;
    while i < table.len()
        invariant
            table@ == rule_table(),
            i <= table@.len(),
            forall|j: int| 0 <= j < i ==> #[trigger] table@[j].id@ != id@,
        decreases table@.len() - i,
    {
        if same_str(table[i].id, id) {
            proof {
                let t = rule_table();
                let c = choose|c: int|
                    0 <= c < t.len() && #[trigger] t[c].id@ == id@ && forall|j: int|
                        0 <= j < c ==> #[trigger] t[j].id@ != id@;
                if c < i {
                    assert(table@[c].id@ != id@);
                }
                if c > i {
                    assert(t[i as int].id@ == id@);
                }
            }
            return Some(i);
        }
        i = i + 1;
    }
    None
}

/// Whether some string of `ids` reads `x`.
pub open spec fn has_id(ids: Seq<&'static str>, x: Seq<char>) -> bool {
    exists|k: int| 0 <= k < ids.len() && #[trigger] ids[k]@ == x
}

/// Insert `id` into the strictly ascending `ids` unless it is already there.
fn insert_id(ids: &mut Vec<&'static str>, id: &'static str)
    requires
        forall|k: int, l: int|
            0 <= k < l < old(ids)@.len() ==> bytes_order(encode_utf8(#[trigger] old(ids)@[k]@), encode_utf8(#[trigger] old(ids)@[l]@)) < 0,
    ensures
        forall|k: int, l: int|
            0 <= k < l < final(ids)@.len() ==> bytes_order(encode_utf8(#[trigger] final(ids)@[k]@), encode_utf8(#[trigger] final(ids)@[l]@)) < 0,
        forall|x: Seq<char>| #[trigger] has_id(final(ids)@, x) <==> (x == id@ || has_id(old(ids)@, x)),
{
    let ghost s = ids@;
    let mut p: usize = 0;
    while p < ids.len() && compare_bytes(ids[p].as_bytes(), id.as_bytes()) < 0
        invariant
            s == ids@,
            p <= ids@.len(),
            forall|k: int| 0 <= k < p ==> bytes_order(encode_utf8(#[trigger] s[k]@), encode_utf8(id@)) < 0,
        decreases ids@.len() - p,
    {
        p = p + 1;
    }
    if p < ids.len() && compare_bytes(ids[p].as_bytes(), id.as_bytes()) == 0 {
        proof {
            lemma_bytes_order(encode_utf8(s[p as int]@), encode_utf8(id@), encode_utf8(id@));
            lemma_encode_injective(s[p as int]@, id@);
        }
        return;
    }
    proof {
        if p < s.len() {
            lemma_bytes_order(encode_utf8(s[p as int]@), encode_utf8(id@), encode_utf8(id@));
        }
    }
    ids.insert(p, id);
    proof {
        let t = ids@;
        assert(t == s.insert(p as int, id));
        assert forall|k: int, l: int| 0 <= k < l < t.len() implies bytes_order(encode_utf8(#[trigger] t[k]@), encode_utf8(#[trigger] t[l]@)) < 0 by {
            if k < p && l == p {
            } else if k == p && l > p {
                assert(t[l] == s[l - 1]);
                lemma_bytes_order(encode_utf8(id@), encode_utf8(s[p as int]@), encode_utf8(s[l - 1]@));
                if l - 1 > p {
                    assert(bytes_order(encode_utf8(s[p as int]@), encode_utf8(s[l - 1]@)) < 0);
                }
            } else if k < p && l > p {
                assert(t[l] == s[l - 1]);
                lemma_bytes_order(encode_utf8(s[k]@), encode_utf8(id@), encode_utf8(s[p as int]@));
                lemma_bytes_order(encode_utf8(s[k]@), encode_utf8(s[p as int]@), encode_utf8(s[l - 1]@));
                lemma_bytes_order(encode_utf8(id@), encode_utf8(s[p as int]@), encode_utf8(s[l - 1]@));
                lemma_bytes_order(encode_utf8(s[k]@), encode_utf8(id@), encode_utf8(s[l - 1]@));
                if l - 1 > p {
                    assert(bytes_order(encode_utf8(s[p as int]@), encode_utf8(s[l - 1]@)) < 0);
                }
            } else if l < p {
                assert(t[k] == s[k] && t[l] == s[l]);
            } else {
                assert(t[k] == s[k - 1] && t[l] == s[l - 1]);
            }
        }
        assert forall|x: Seq<char>| #[trigger] has_id(t, x) <==> (x == id@ || has_id(s, x)) by {
            if exists|k: int| 0 <= k < t.len() && #[trigger] t[k]@ == x {
                let k = choose|k: int| 0 <= k < t.len() && #[trigger] t[k]@ == x;
                if k < p {
                    assert(s[k]@ == x);
                } else if k > p {
                    assert(s[k - 1]@ == x);
                }
            }
            if exists|k: int| 0 <= k < s.len() && #[trigger] s[k]@ == x {
                let k = choose|k: int| 0 <= k < s.len() && #[trigger] s[k]@ == x;
                if k < p {
                    assert(t[k]@ == x);
                } else {
                    assert(t[k + 1]@ == x);
                }
            }
            if x == id@ {
                assert(t[p as int]@ == x);
            }
        }
    }
}

/// The distinct ids of the rules that fired in `findings`, ascending.
fn fired_ids(findings: &Vec<Finding>) -> (ids: Vec<&'static str>)
    ensures
        forall|k: int, l: int|
            0 <= k < l < ids@.len() ==> bytes_order(encode_utf8(#[trigger] ids@[k]@), encode_utf8(#[trigger] ids@[l]@)) < 0,
        forall|x: Seq<char>| #[trigger] has_id(ids@, x) <==> exists|i: int|
            0 <= i < findings@.len() && #[trigger] findings@[i].rule@ == x,
{
    let mut ids: Vec<&'static str> = Vec::new();
    let mut i: usize = 0;
    while i < findings.len()
        invariant
            i <= findings@.len(),
            forall|k: int, l: int|
                0 <= k < l < ids@.len() ==> bytes_order(encode_utf8(#[trigger] ids@[k]@), encode_utf8(#[trigger] ids@[l]@)) < 0,
            forall|x: Seq<char>| #[trigger] has_id(ids@, x) <==> exists|j: int|
                0 <= j < i && #[trigger] findings@[j].rule@ == x,
        decreases findings@.len() - i,
    {
        let ghost old_ids = ids@;
        insert_id(&mut ids, findings[i].rule);
        proof {
            assert forall|x: Seq<char>| #[trigger] has_id(ids@, x) <==> exists|j: int|
                0 <= j < i + 1 && #[trigger] findings@[j].rule@ == x by {
                if exists|j: int| 0 <= j < i + 1 && #[trigger] findings@[j].rule@ == x {
                    let j = choose|j: int| 0 <= j < i + 1 && #[trigger] findings@[j].rule@ == x;
                    if j < i {
                        assert(has_id(old_ids, x));
                    }
                }
                if has_id(old_ids, x) {
                    let j = choose|j: int| 0 <= j < i && #[trigger] findings@[j].rule@ == x;
                    assert(0 <= j < i + 1);
                }
            }
        }
        i = i + 1;
    }
    ids
}

/// The message of a result (see [`result_message`]).
fn message_of(f: &Finding) -> (m: String)
    ensures
        m@ == result_message(f@),
{
    let mut m = String::new();
    m.append(f.message);
    m.append(" [");
    m.append(f.sep);
    m.append("] Fix: ");
    m.append(f.fix);
    assert(m@ =~= result_message(f@));
    m
}

/// The SARIF model of a report: one descriptor per rule that fired, ascending
/// by id and described from the ruleset, and one result per finding, in order.
pub fn sarif_log(report: &Report) -> (log: SarifLog)
    ensures
        fired_rules(log.rules@, views(report.findings@)),
        forall|k: int| 0 <= k < log.rules@.len() ==> descriptor_matches(#[trigger] log.rules@[k]),
        log.results@.len() == report.findings@.len(),
        forall|i: int|
            0 <= i < log.results@.len() ==> result_matches(#[trigger] log.results@[i], report.findings@[i]@),
{
    let ids = fired_ids(&report.findings);
    let table = rules();
    let mut descriptors: Vec<SarifRule> = Vec::new();
    let mut k: usize = 0;
    while k < ids.len()
        invariant
            table@ == rule_table(),
            k <= ids@.len(),
            descriptors@.len() == k,
            forall|j: int| 0 <= j < k ==> #[trigger] descriptors@[j].id == ids@[j],
            forall|j: int| 0 <= j < k ==> descriptor_matches(#[trigger] descriptors@[j]),
        decreases ids@.len() - k,
    {
        let id = ids[k];
        let d = match find_rule(&table, id) {
            Some(i) => SarifRule {
                id,
                short_description: table[i].message,
                help_uri: table[i].url,
                level: level_str(table[i].level),
            },
            None => SarifRule { id, short_description: "", help_uri: INFO_URI, level: "warning" },
        };
        descriptors.push(d);
        k = k + 1;
    }
    let ghost s = views(report.findings@);
    proof {
        assert forall|i: int| 0 <= i < s.len() implies names_rule(descriptors@, #[trigger] s[i].rule) by {
            assert(report.findings@[i].rule@ == s[i].rule);
            assert(has_id(ids@, s[i].rule));
            let k = choose|k: int| 0 <= k < ids@.len() && #[trigger] ids@[k]@ == s[i].rule;
            assert(descriptors@[k].id == ids@[k]);
        }
        assert forall|k: int| 0 <= k < descriptors@.len() implies rule_fired(s, #[trigger] descriptors@[k].id@) by {
            assert(descriptors@[k].id == ids@[k]);
            assert(has_id(ids@, ids@[k]@));
            let i = choose|i: int| 0 <= i < report.findings@.len() && #[trigger] report.findings@[i].rule@ == ids@[k]@;
            assert(s[i].rule == report.findings@[i].rule@);
        }
        assert forall|a: int, b: int| 0 <= a < b < descriptors@.len() implies bytes_order(
            encode_utf8(#[trigger] descriptors@[a].id@),
            encode_utf8(#[trigger] descriptors@[b].id@),
        ) < 0 by {
            assert(descriptors@[a].id == ids@[a]);
            assert(descriptors@[b].id == ids@[b]);
        }
        assert(fired_rules(descriptors@, s));
    }
    let mut results: Vec<SarifResult> = Vec::new();
    let mut i: usize = 0;
    while i < report.findings.len()
        invariant
            i <= report.findings@.len(),
            results@.len() == i,
            forall|j: int| 0 <= j < i ==> result_matches(#[trigger] results@[j], report.findings@[j]@),
            fired_rules(descriptors@, views(report.findings@)),
            forall|k: int| 0 <= k < descriptors@.len() ==> descriptor_matches(#[trigger] descriptors@[k]),
        decreases report.findings@.len() - i,
    {
        let f = &report.findings[i];
        let start_line = if f.line >= 1 {
            f.line
        } else {
            1
        };
        results.push(
            SarifResult {
                rule_id: f.rule,
                level: level_str(f.level),
                message: message_of(f),
                uri: f.file.clone(),
                start_line,
            },
        );
        i = i + 1;
    }
    SarifLog { rules: descriptors, results }
}

/// `serde_json::Value`, opaque here.
#[verifier::external_type_specification]
#[verifier::external_body]
pub struct ExJsonValue(serde_json::Value);

/// The JSON value that a `serde_json::Value` holds, as far as this module
/// builds one: strings, unsigned numbers, arrays and objects.
pub enum Json {
    Str(Seq<char>),
    Num(nat),
    Arr(Seq<Json>),
    Obj(Map<Seq<char>, Json>),
}

/// What a `serde_json::Value` holds.
pub uninterp spec fn json_model(v: serde_json::Value) -> Json;

/// The models of a sequence of values, in order.
pub open spec fn json_models(items: Seq<serde_json::Value>) -> Seq<Json> {
    items.map_values(|v: serde_json::Value| json_model(v))
}

/// No two members share a key.
pub open spec fn distinct_keys(members: Seq<(&'static str, serde_json::Value)>) -> bool {
    forall|i: int, j: int| 0 <= i < j < members.len() ==> #[trigger] members[i].0@ != #[trigger] members[j].0@
}

/// The object whose members are the given `(key, value)` pairs.
pub open spec fn members_map(members: Seq<(&'static str, serde_json::Value)>) -> Map<Seq<char>, Json>
    decreases members.len(),
{
    if members.len() == 0 {
        Map::empty()
    } else {
        members_map(members.drop_last()).insert(members.last().0@, json_model(members.last().1))
    }
}

/// A JSON string.
///
/// Trusted wrapper of `serde_json::Value::from(&str)`, which builds
/// `Value::String` of the same text.
#[verifier::external_body]
fn json_text(s: &str) -> (v: serde_json::Value)
    ensures
        json_model(v) == Json::Str(s@),
{
    serde_json::Value::from(s)
}

/// A JSON number.
///
/// Trusted wrapper of `serde_json::Value::from(usize)`, which builds
/// `Value::Number` of the same (non-negative) integer.
#[verifier::external_body]
fn json_number(n: usize) -> (v: serde_json::Value)
    ensures
        json_model(v) == Json::Num(n as nat),
{
    serde_json::Value::from(n)
}

/// A JSON array of the given items, in order.
///
/// Trusted wrapper of `serde_json::Value::from(Vec<Value>)`, which builds
/// `Value::Array` of the items in the order given.
#[verifier::external_body]
fn json_list(items: Vec<serde_json::Value>) -> (v: serde_json::Value)
    ensures
        json_model(v) == Json::Arr(json_models(items@)),
{
    serde_json::Value::from(items)
}

/// A JSON object with the given members.
///
/// Trusted wrapper of `serde_json::Value::from_iter` over `(key, value)` pairs,
/// which builds `Value::Object` holding each pair under its key. Where two
/// pairs share a key, which value stays is left unsaid: the claim is made only
/// of members with distinct keys.
#[verifier::external_body]
fn json_object(members: Vec<(&'static str, serde_json::Value)>) -> (v: serde_json::Value)
    ensures
        distinct_keys(members@) ==> json_model(v) == Json::Obj(members_map(members@)),
{
    serde_json::Value::from_iter(members)
}

/// The JSON object of a rule descriptor: its id (also as its name), its short
/// description, its help URI and its default level.
pub open spec fn descriptor_model(d: SarifRule) -> Json {
    Json::Obj(
        map![
            "id"@ => Json::Str(d.id@),
            "name"@ => Json::Str(d.id@),
            "shortDescription"@ => Json::Obj(map!["text"@ => Json::Str(d.short_description@)]),
            "helpUri"@ => Json::Str(d.help_uri@),
            "defaultConfiguration"@ => Json::Obj(map!["level"@ => Json::Str(d.level@)]),
        ],
    )
}

/// The JSON object of a result: its rule id, level and message, and one
/// physical location with the file's URI and the start line.
pub open spec fn result_model(r: SarifResult) -> Json {
    Json::Obj(
        map![
            "ruleId"@ => Json::Str(r.rule_id@),
            "level"@ => Json::Str(r.level@),
            "message"@ => Json::Obj(map!["text"@ => Json::Str(r.message@)]),
            "locations"@ => Json::Arr(
                seq![
                    Json::Obj(
                        map![
                            "physicalLocation"@ => Json::Obj(
                                map![
                                    "artifactLocation"@ => Json::Obj(map!["uri"@ => Json::Str(r.uri@)]),
                                    "region"@ => Json::Obj(map!["startLine"@ => Json::Num(r.start_line as nat)]),
                                ],
                            ),
                        ],
                    ),
                ],
            ),
        ],
    )
}

fn descriptor_json(d: &SarifRule) -> (v: serde_json::Value)
    ensures
        json_model(v) == descriptor_model(*d),
{
    let mut text: Vec<(&'static str, serde_json::Value)> = Vec::new();
    text.push(("text", json_text(d.short_description)));
    let mut config: Vec<(&'static str, serde_json::Value)> = Vec::new();
    config.push(("level", json_text(d.level)));
    let mut m: Vec<(&'static str, serde_json::Value)> = Vec::new();
    m.push(("id", json_text(d.id)));
    m.push(("name", json_text(d.id)));
    m.push(("shortDescription", json_object(text)));
    m.push(("helpUri", json_text(d.help_uri)));
    m.push(("defaultConfiguration", json_object(config)));
    proof {
        reveal_strlit("id");
        reveal_strlit("name");
        reveal_strlit("shortDescription");
        reveal_strlit("helpUri");
        reveal_strlit("defaultConfiguration");
        reveal_with_fuel(members_map, 6);
        assert(m@[0].0@.len() == 2 && m@[1].0@.len() == 4 && m@[2].0@.len() == 16);
        assert(m@[3].0@.len() == 7 && m@[4].0@.len() == 20);
        assert(distinct_keys(m@));
        assert(members_map(m@) =~= descriptor_model(*d)->Obj_0);
    }
    json_object(m)
}

fn result_json(r: &SarifResult) -> (v: serde_json::Value)
    ensures
        json_model(v) == result_model(*r),
{
    let mut message: Vec<(&'static str, serde_json::Value)> = Vec::new();
    message.push(("text", json_text(r.message.as_str())));
    let mut artifact: Vec<(&'static str, serde_json::Value)> = Vec::new();
    artifact.push(("uri", json_text(r.uri.as_str())));
    let mut region: Vec<(&'static str, serde_json::Value)> = Vec::new();
    region.push(("startLine", json_number(r.start_line)));
    let mut physical: Vec<(&'static str, serde_json::Value)> = Vec::new();
    physical.push(("artifactLocation", json_object(artifact)));
    physical.push(("region", json_object(region)));
    proof {
        reveal_strlit("artifactLocation");
        reveal_strlit("region");
        assert(physical@[0].0@.len() == 16 && physical@[1].0@.len() == 6);
        reveal_with_fuel(members_map, 3);
    }
    let mut location: Vec<(&'static str, serde_json::Value)> = Vec::new();
    location.push(("physicalLocation", json_object(physical)));
    let mut locations: Vec<serde_json::Value> = Vec::new();
    locations.push(json_object(location));
    let mut m: Vec<(&'static str, serde_json::Value)> = Vec::new();
    m.push(("ruleId", json_text(r.rule_id)));
    m.push(("level", json_text(r.level)));
    m.push(("message", json_object(message)));
    m.push(("locations", json_list(locations)));
    proof {
        reveal_strlit("ruleId");
        reveal_strlit("level");
        reveal_strlit("message");
        reveal_strlit("locations");
        assert(m@[0].0@.len() == 6 && m@[1].0@.len() == 5);
        assert(m@[2].0@.len() == 7 && m@[3].0@.len() == 9);
        assert(distinct_keys(m@));
        reveal_with_fuel(members_map, 5);
        assert(json_models(locations@) =~= result_model(*r)->Obj_0["locations"@]->Arr_0);
        assert(members_map(m@) =~= result_model(*r)->Obj_0);
    }
    json_object(m)
}

/// The JSON document of a SARIF model: version 2.1.0, its schema, and one run
/// whose driver names this tool, its home page and version, and lists the
/// rule descriptors, followed by the results, each in the model's order.
pub open spec fn log_model(log: SarifLog) -> Json {
    let driver = Json::Obj(
        map![
            "name"@ => Json::Str("mcp-herald"@),
            "informationUri"@ => Json::Str(INFO_URI@),
            "version"@ => Json::Str(TOOL_VERSION@),
            "rules"@ => Json::Arr(log.rules@.map_values(|d: SarifRule| descriptor_model(d))),
        ],
    );
    let run = Json::Obj(
        map![
            "tool"@ => Json::Obj(map!["driver"@ => driver]),
            "results"@ => Json::Arr(log.results@.map_values(|r: SarifResult| result_model(r))),
        ],
    );
    Json::Obj(
        map![
            "version"@ => Json::Str("2.1.0"@),
            "$schema"@ => Json::Str("https://json.schemastore.org/sarif-2.1.0.json"@),
            "runs"@ => Json::Arr(seq![run]),
        ],
    )
}

/// Write a SARIF model out as a JSON document (SARIF 2.1.0, one run).
pub fn sarif_json(log: &SarifLog) -> (v: serde_json::Value)
    ensures
        json_model(v) == log_model(*log),
{
    let mut rule_values: Vec<serde_json::Value> = Vec::new();
    let mut k: usize = 0;
    while k < log.rules.len()
        invariant
            k <= log.rules@.len(),
            rule_values@.len() == k,
            forall|j: int| 0 <= j < k ==> json_model(#[trigger] rule_values@[j]) == descriptor_model(log.rules@[j]),
        decreases log.rules@.len() - k,
    {
        rule_values.push(descriptor_json(&log.rules[k]));
        k = k + 1;
    }
    let mut result_values: Vec<serde_json::Value> = Vec::new();
    let mut i: usize = 0;
    while i < log.results.len()
        invariant
            i <= log.results@.len(),
            result_values@.len() == i,
            forall|j: int| 0 <= j < i ==> json_model(#[trigger] result_values@[j]) == result_model(log.results@[j]),
        decreases log.results@.len() - i,
    {
        result_values.push(result_json(&log.results[i]));
        i = i + 1;
    }
    proof {
        reveal_strlit("name");
        reveal_strlit("informationUri");
        reveal_strlit("version");
        reveal_strlit("rules");
        reveal_strlit("tool");
        reveal_strlit("driver");
        reveal_strlit("results");
        reveal_strlit("$schema");
        reveal_strlit("runs");
        reveal_with_fuel(members_map, 5);
    }
    let ghost rules_model = log.rules@.map_values(|d: SarifRule| descriptor_model(d));
    let ghost results_model = log.results@.map_values(|r: SarifResult| result_model(r));
    proof {
        assert(json_models(rule_values@) =~= rules_model);
        assert(json_models(result_values@) =~= results_model);
    }
    let mut driver: Vec<(&'static str, serde_json::Value)> = Vec::new();
    driver.push(("name", json_text("mcp-herald")));
    driver.push(("informationUri", json_text(INFO_URI)));
    driver.push(("version", json_text(TOOL_VERSION)));
    driver.push(("rules", json_list(rule_values)));
    let ghost driver_model = Json::Obj(
        map![
            "name"@ => Json::Str("mcp-herald"@),
            "informationUri"@ => Json::Str(INFO_URI@),
            "version"@ => Json::Str(TOOL_VERSION@),
            "rules"@ => Json::Arr(rules_model),
        ],
    );
    proof {
        assert(driver@[0].0@.len() == 4 && driver@[1].0@.len() == 14);
        assert(driver@[2].0@.len() == 7 && driver@[3].0@.len() == 5);
        assert(distinct_keys(driver@));
        assert(members_map(driver@) =~= driver_model->Obj_0);
    }
    let driver_value = json_object(driver);
    let mut tool: Vec<(&'static str, serde_json::Value)> = Vec::new();
    tool.push(("driver", driver_value));
    let tool_value = json_object(tool);
    proof {
        assert(members_map(tool@) =~= map!["driver"@ => driver_model]);
    }
    let mut run: Vec<(&'static str, serde_json::Value)> = Vec::new();
    run.push(("tool", tool_value));
    run.push(("results", json_list(result_values)));
    let ghost run_model = Json::Obj(
        map![
            "tool"@ => Json::Obj(map!["driver"@ => driver_model]),
            "results"@ => Json::Arr(results_model),
        ],
    );
    proof {
        assert(run@[0].0@.len() == 4 && run@[1].0@.len() == 7);
        assert(distinct_keys(run@));
        assert(members_map(run@) =~= run_model->Obj_0);
    }
    let mut runs: Vec<serde_json::Value> = Vec::new();
    runs.push(json_object(run));
    proof {
        assert(json_models(runs@) =~= seq![run_model]);
    }
    let mut doc: Vec<(&'static str, serde_json::Value)> = Vec::new();
    doc.push(("version", json_text("2.1.0")));
    doc.push(("$schema", json_text("https://json.schemastore.org/sarif-2.1.0.json")));
    doc.push(("runs", json_list(runs)));
    proof {
        assert(doc@[0].0@[0] == 'v' && doc@[1].0@[0] == '$' && doc@[2].0@.len() == 4);
        assert(doc@[0].0@.len() == 7 && doc@[1].0@.len() == 7);
        assert(distinct_keys(doc@));
        assert(members_map(doc@) =~= log_model(*log)->Obj_0);
    }
    json_object(doc)
}

/// `log` is a SARIF model of `report`: what [`sarif_log`] promises of the
/// model it computes.
pub open spec fn models_report(log: SarifLog, report: Report) -> bool {
    &&& fired_rules(log.rules@, views(report.findings@))
    &&& forall|k: int| 0 <= k < log.rules@.len() ==> descriptor_matches(#[trigger] log.rules@[k])
    &&& log.results@.len() == report.findings@.len()
    &&& forall|i: int|
        0 <= i < log.results@.len() ==> result_matches(#[trigger] log.results@[i], report.findings@[i]@)
}

/// Render a scan report as SARIF. Only the rules that actually fired are
/// emitted as rule descriptors, each with its source as `helpUri`; the
/// document is the JSON of a SARIF model of the report (see
/// [`models_report`] and [`log_model`]).
pub fn to_sarif(report: &Report) -> (v: serde_json::Value)
    ensures
        exists|log: SarifLog| #[trigger] models_report(log, *report) && json_model(v) == log_model(log),
{
    let log = sarif_log(report);
    let v = sarif_json(&log);
    assert(models_report(log, *report));
    v
}

} // verus!
