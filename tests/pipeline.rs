use dvc_zktls::error::ZkErrorCode;
use dvc_zktls::json::{get_json_values, JsonKind, JsonNode, PathStep};
use dvc_zktls::pipeline::{
    attestor, build_config, check_and_extract, finish, Commitment, Deployment, VerifiedAttestation,
};
use dvc_zktls::predicate::Predicate;
use dvc_zktls::query::{parse_queries, parse_query};

const WHOLE: u128 = 1_000_000_000_000_000_000;

fn s(v: &str) -> JsonNode {
    JsonNode { text: format!("\"{}\"", v), kind: JsonKind::Str(v.to_string()) }
}

fn num(t: &str) -> JsonNode {
    JsonNode { text: t.to_string(), kind: JsonKind::Scalar }
}

fn obj(members: Vec<(&str, JsonNode)>) -> JsonNode {
    let text = format!(
        "{{{}}}",
        members.iter().map(|(k, v)| format!("\"{}\":{}", k, v.text)).collect::<Vec<_>>().join(",")
    );
    JsonNode {
        text,
        kind: JsonKind::Object(members.into_iter().map(|(k, v)| (k.to_string(), v)).collect()),
    }
}

fn arr(items: Vec<JsonNode>) -> JsonNode {
    let text = format!("[{}]", items.iter().map(|v| v.text.clone()).collect::<Vec<_>>().join(","));
    JsonNode { text, kind: JsonKind::Array(items) }
}

fn balances_doc(rows: &[(&str, &str, &str)]) -> JsonNode {
    obj(vec![(
        "balances",
        arr(rows
            .iter()
            .map(|(a, f, l)| obj(vec![("asset", s(a)), ("free", s(f)), ("locked", s(l))]))
            .collect()),
    )])
}

fn envelope(attestor_addr: &str) -> JsonNode {
    obj(vec![("public_data", arr(vec![obj(vec![("attestor", s(attestor_addr))])]))])
}

fn deployment() -> Deployment {
    let texts = vec![
        "$.balances[*].asset".to_string(),
        "$.balances[*].free".to_string(),
        "$.balances[*].locked".to_string(),
    ];
    Deployment {
        base_urls: vec!["https://www.okx.com/api/v5/public/instruments".to_string()],
        queries: parse_queries(&texts).unwrap(),
        min_values: 3,
        predicate: Predicate::ThresholdSum { symbol: "ETH".to_string(), threshold: WHOLE / 10 },
    }
}

fn verified(request_count: usize, docs: Vec<JsonNode>) -> Result<VerifiedAttestation, String> {
    Ok(VerifiedAttestation { request_count, messages: vec![docs] })
}

fn status_of(log: &[Commitment]) -> i32 {
    match log.last() {
        Some(Commitment::Status(c)) => *c,
        _ => panic!("the log does not end with a status"),
    }
}

fn run(env: Option<JsonNode>, verdict: Result<VerifiedAttestation, String>) -> Vec<Commitment> {
    let d = deployment();
    let cfg = build_config(&env, &d);
    let verdict = if cfg.is_ok() { verdict } else { Err("not verified".to_string()) };
    assert!(d.is_valid());
    finish(cfg, &verdict, &d).0
}

#[test]
fn satisfied_run_commits_config_symbol_threshold_and_status() {
    let doc = balances_doc(&[("ETH", "0.05", "0.06"), ("BTC", "1", "2")]);
    let log = run(Some(envelope("0xabc")), verified(1, vec![doc]));
    assert_eq!(log.len(), 4);
    match &log[0] {
        Commitment::Config(c) => {
            assert_eq!(c.attestor_addr, "0xabc");
            assert_eq!(c.url, vec!["https://www.okx.com/api/v5/public/instruments".to_string()]);
        },
        _ => panic!("first entry is not the configuration"),
    }
    assert!(matches!(&log[1], Commitment::Symbol(sym) if sym == "ETH"));
    assert!(matches!(&log[2], Commitment::Threshold(t) if *t == WHOLE / 10));
    assert_eq!(status_of(&log), 0);
}

#[test]
fn unsatisfied_run_commits_only_config_and_status() {
    let doc = balances_doc(&[("ETH", "0.01", "0.02")]);
    let log = run(Some(envelope("0xabc")), verified(1, vec![doc]));
    assert_eq!(log.len(), 2);
    assert_eq!(status_of(&log), ZkErrorCode::Unsatisfied.icode());
}

#[test]
fn count_mismatch_stops_before_predicate() {
    let doc = balances_doc(&[("ETH", "5", "5")]);
    let log = run(Some(envelope("0xabc")), verified(2, vec![doc]));
    assert_eq!(log.len(), 2);
    assert!(matches!(&log[0], Commitment::Config(_)));
    assert_eq!(status_of(&log), ZkErrorCode::InvalidMessagesLength.icode());
    let log = run(Some(envelope("0xabc")), verified(0, vec![]));
    assert_eq!(status_of(&log), ZkErrorCode::InvalidMessagesLength.icode());
}

#[test]
fn unparsable_payload_commits_status_only() {
    let log = run(None, verified(1, vec![balances_doc(&[])]));
    assert_eq!(log.len(), 1);
    assert_eq!(status_of(&log), ZkErrorCode::ParseAttestationData.icode());
}

#[test]
fn missing_attestor_commits_status_only() {
    let env = obj(vec![("public_data", arr(vec![obj(vec![("attestor", num("7"))])]))]);
    let log = run(Some(env), verified(1, vec![balances_doc(&[])]));
    assert_eq!(log.len(), 1);
    assert_eq!(status_of(&log), ZkErrorCode::GetAttestorAddressFail.icode());
    assert_eq!(attestor(&obj(vec![("public_data", arr(vec![]))])), None);
    assert_eq!(attestor(&envelope("0x1")), Some("0x1".to_string()));
}

#[test]
fn rejected_attestation_commits_config_and_status() {
    let log = run(Some(envelope("0xabc")), Err("bad signature".to_string()));
    assert_eq!(log.len(), 2);
    assert_eq!(status_of(&log), ZkErrorCode::VerifyAttestation.icode());
}

#[test]
fn run_reports_error_with_message() {
    let d = deployment();
    let env = Some(envelope("0xabc"));
    let (_, res) = finish(build_config(&env, &d), &Err("bad signature".to_string()), &d);
    let e = res.unwrap_err();
    assert_eq!(e.code, ZkErrorCode::VerifyAttestation);
    assert_eq!(e.msg, "bad signature");
    let doc = obj(vec![("balances", s("none"))]);
    let (log, res) = finish(build_config(&env, &d), &verified(1, vec![doc]), &d);
    assert_eq!(log.len(), 2);
    let e = res.unwrap_err();
    assert_eq!(e.code, ZkErrorCode::GetJsonValueFail);
    assert_eq!(e.msg, "a path query does not fit the document");
    let doc = balances_doc(&[("ETH", "0.05", "0.06")]);
    let (_, res) = finish(build_config(&env, &d), &verified(1, vec![doc]), &d);
    assert!(res.is_ok());
}

#[test]
fn deployment_validity_follows_query_count() {
    let mut d = deployment();
    assert!(d.is_valid());
    d.queries.pop();
    assert!(!d.is_valid());
    d.predicate = Predicate::MatchThreshold { code: "BTC".to_string(), threshold: 1 };
    assert!(d.is_valid());
}

#[test]
fn query_on_wrong_shape_fails_extraction() {
    let doc = obj(vec![("balances", s("none"))]);
    let log = run(Some(envelope("0xabc")), verified(1, vec![doc]));
    assert_eq!(log.len(), 2);
    assert_eq!(status_of(&log), ZkErrorCode::GetJsonValueFail.icode());
}

#[test]
fn ragged_values_fail_shape_check() {
    let row = obj(vec![("asset", s("ETH")), ("free", s("1"))]);
    let doc = obj(vec![("balances", arr(vec![row]))]);
    let d = deployment();
    let v = VerifiedAttestation { request_count: 1, messages: vec![vec![doc]] };
    assert_eq!(check_and_extract(&v, &d), Err(ZkErrorCode::InvalidJsonValueSize));
    let empty = VerifiedAttestation { request_count: 1, messages: vec![vec![balances_doc(&[])]] };
    assert_eq!(check_and_extract(&empty, &d), Err(ZkErrorCode::InvalidJsonValueSize));
}

#[test]
fn extraction_groups_values_by_query() {
    let doc = balances_doc(&[("ETH", "0.05", "0.06"), ("BTC", "1", "2")]);
    let d = deployment();
    let vals = get_json_values(&doc, &d.queries).unwrap();
    assert_eq!(vals, vec!["\"ETH\"", "\"BTC\"", "\"0.05\"", "\"1\"", "\"0.06\"", "\"2\""]);
    assert_eq!(vals.len() % d.queries.len(), 0);
}

#[test]
fn extraction_returns_json_text_of_containers_and_skips_missing_keys() {
    let doc = obj(vec![("a", arr(vec![num("1"), num("2")])), ("b", num("true"))]);
    let q = vec![parse_query("$.a").unwrap(), parse_query("$.zzz").unwrap(), parse_query("$.a[*]").unwrap()];
    assert_eq!(get_json_values(&doc, &q).unwrap(), vec!["[1,2]", "1", "2"]);
    let bad = vec![parse_query("$.b[*]").unwrap()];
    assert_eq!(get_json_values(&doc, &bad), None);
}

#[test]
fn rerun_gives_identical_log() {
    let doc = || balances_doc(&[("ETH", "0.05", "0.06"), ("BTC", "1", "2")]);
    let a = run(Some(envelope("0xabc")), verified(1, vec![doc()]));
    let b = run(Some(envelope("0xabc")), verified(1, vec![doc()]));
    assert_eq!(a.len(), b.len());
    assert_eq!(status_of(&a), status_of(&b));
    for (x, y) in a.iter().zip(b.iter()) {
        match (x, y) {
            (Commitment::Config(p), Commitment::Config(q)) => {
                assert_eq!(p.attestor_addr, q.attestor_addr);
                assert_eq!(p.url, q.url);
            },
            (Commitment::Symbol(p), Commitment::Symbol(q)) => assert_eq!(p, q),
            (Commitment::Threshold(p), Commitment::Threshold(q)) => assert_eq!(p, q),
            (Commitment::Status(p), Commitment::Status(q)) => assert_eq!(p, q),
            _ => panic!("logs differ"),
        }
    }
}

#[test]
fn queries_parse_fields_and_wildcards() {
    let q = parse_query("$.balances[*].asset").unwrap();
    assert_eq!(q.len(), 3);
    assert!(matches!(&q[0], PathStep::Field(k) if k == "balances"));
    assert!(matches!(&q[1], PathStep::Wildcard));
    assert!(matches!(&q[2], PathStep::Field(k) if k == "asset"));
    assert_eq!(parse_query("$").unwrap().len(), 0);
    assert!(parse_query("balances").is_none());
    assert!(parse_query("$.").is_none());
    assert!(parse_query("$[0]").is_none());
    assert!(parse_query("").is_none());
    assert!(parse_queries(&vec!["$.a".to_string(), "x".to_string()]).is_none());
}
