use vstd::prelude::*;
use vstd::string::StringExecFns;

use crate::error::{spec_code, spec_message, ZkErrorCode, ZktlsError, STATUS_OK};
use crate::json::{
    element, element_of, extract_values, get_json_values, member, member_of, JsonKind, JsonNode,
    PathStep,
};
use crate::predicate::{evaluate, predicate_outcome, Predicate};

verus! {

/// The trust parameters of one run: whose signature is accepted, and for
/// which origins.
pub struct VerificationConfig {
    pub attestor_addr: String,
    pub url: Vec<String>,
}

/// The fixed parameters of one deployment.
pub struct Deployment {
    /// The origins that the attestation may cover.
    pub base_urls: Vec<String>,
    /// The path queries run against the first revealed document.
    pub queries: Vec<Vec<PathStep>>,
    /// The fewest extracted values that the predicate accepts.
    pub min_values: usize,
    /// The business check.
    pub predicate: Predicate,
}

/// What the attestation verifier hands back on success: how many requests
/// the first public-data entry claims, and the revealed documents, per
/// entry and per request.
pub struct VerifiedAttestation {
    pub request_count: usize,
    pub messages: Vec<Vec<JsonNode>>,
}

/// One entry of the public output log.
pub enum Commitment {
    Config(VerificationConfig),
    Symbol(String),
    Threshold(u128),
    Status(i32),
}

/// `public_data[0].attestor` of the envelope, where it is a string.
pub open spec fn attestor_of(env: JsonNode) -> Option<Seq<char>> {
    match member_of(env, "public_data"@) {
        Some(pd) => match element_of(pd, 0) {
            Some(e) => match member_of(e, "attestor"@) {
                Some(a) => match a.kind {
                    JsonKind::Str(s) => Some(s@),
                    _ => None,
                },
                None => None,
            },
            None => None,
        },
        None => None,
    }
}

/// The configuration built from a parsed envelope (`None`: the payload was
/// not JSON).
pub open spec fn config_outcome(envelope: Option<JsonNode>, d: Deployment) -> Result<
    (Seq<char>, Seq<String>),
    ZkErrorCode,
> {
    match envelope {
        None => Err(ZkErrorCode::ParseAttestationData),
        Some(env) => match attestor_of(env) {
            None => Err(ZkErrorCode::GetAttestorAddressFail),
            Some(a) => Ok((a, d.base_urls@)),
        },
    }
}

/// The queries of a deployment, as sequences of steps.
pub open spec fn queries_of(d: Deployment) -> Seq<Seq<PathStep>> {
    d.queries@.map_values(|q: Vec<PathStep>| q@)
}

/// One revealed document for each claimed request, and at least one.
pub open spec fn counts_consistent(v: VerifiedAttestation) -> bool {
    v.messages@.len() > 0 && v.messages@[0]@.len() == v.request_count && v.request_count > 0
}

/// Whole rows of values, and at least the deployment's minimum.
pub open spec fn shape_ok(n: int, d: Deployment) -> bool {
    d.queries@.len() > 0 && n % (d.queries@.len() as int) == 0 && n >= d.min_values
}

/// The values handed to the predicate, or the error that stops the run first.
pub open spec fn checked_values(v: VerifiedAttestation, d: Deployment) -> Result<
    Seq<Seq<char>>,
    ZkErrorCode,
> {
    if !counts_consistent(v) {
        Err(ZkErrorCode::InvalidMessagesLength)
    } else {
        match extract_values(v.messages@[0]@[0], queries_of(d)) {
            None => Err(ZkErrorCode::GetJsonValueFail),
            Some(vals) => if shape_ok(vals.len() as int, d) {
                Ok(vals)
            } else {
                Err(ZkErrorCode::InvalidJsonValueSize)
            },
        }
    }
}

/// What a satisfied predicate discloses, in order.
pub open spec fn disclosed(p: Predicate) -> Seq<Commitment> {
    match p {
        Predicate::ThresholdSum { symbol, threshold } => seq![
            Commitment::Symbol(symbol),
            Commitment::Threshold(threshold),
        ],
        Predicate::MatchThreshold { code, threshold } => seq![
            Commitment::Symbol(code),
            Commitment::Threshold(threshold),
        ],
    }
}

/// The log that follows a built configuration.
pub open spec fn verified_log(verdict: Result<VerifiedAttestation, String>, d: Deployment) -> Seq<
    Commitment,
> {
    match verdict {
        Err(_) => seq![Commitment::Status(spec_code(ZkErrorCode::VerifyAttestation))],
        Ok(v) => match checked_values(v, d) {
            Err(e) => seq![Commitment::Status(spec_code(e))],
            Ok(vals) => match predicate_outcome(vals, d.predicate) {
                Err(e) => seq![Commitment::Status(spec_code(e))],
                Ok(_) => disclosed(d.predicate).push(Commitment::Status(STATUS_OK)),
            },
        },
    }
}

/// The whole public output log of a run: the configuration where one was
/// built, what the predicate discloses where it holds, and always a final
/// status.
pub open spec fn run_log(
    cfg: Result<VerificationConfig, ZkErrorCode>,
    verdict: Result<VerifiedAttestation, String>,
    d: Deployment,
) -> Seq<Commitment> {
    match cfg {
        Err(e) => seq![Commitment::Status(spec_code(e))],
        Ok(c) => seq![Commitment::Config(c)] + verified_log(verdict, d),
    }
}

/// A deployment whose predicate reads as many groups of values as it has
/// queries: three for a threshold sum, two for a match and threshold.
pub open spec fn deployment_ok(d: Deployment) -> bool {
    match d.predicate {
        Predicate::ThresholdSum { .. } => d.queries@.len() == 3,
        Predicate::MatchThreshold { .. } => d.queries@.len() == 2,
    }
}

/// How a run ends: `Ok` where the predicate held, else the error kind and
/// its message (for a rejected attestation, the verifier's own text).
pub open spec fn run_result(
    cfg: Result<VerificationConfig, ZkErrorCode>,
    verdict: Result<VerifiedAttestation, String>,
    d: Deployment,
) -> Result<(), (ZkErrorCode, Seq<char>)> {
    match cfg {
        Err(e) => Err((e, spec_message(e))),
        Ok(_) => match verdict {
            Err(m) => Err((ZkErrorCode::VerifyAttestation, m@)),
            Ok(v) => match checked_values(v, d) {
                Err(e) => Err((e, spec_message(e))),
                Ok(vals) => match predicate_outcome(vals, d.predicate) {
                    Err(e) => Err((e, spec_message(e))),
                    Ok(_) => Ok(()),
                },
            },
        },
    }
}

impl Deployment {
    /// Whether the predicate reads as many groups as there are queries.
    pub fn is_valid(&self) -> (r: bool)
        ensures
            r == deployment_ok(*self),
    {
        match &self.predicate {
            Predicate::ThresholdSum { .. } => self.queries.len() == 3,
            Predicate::MatchThreshold { .. } => self.queries.len() == 2,
        }
    }
}

/// `public_data[0].attestor` of the envelope, where it is a string.
pub fn attestor(env: &JsonNode) -> (r: Option<String>)
    ensures
        match r {
            Some(s) => attestor_of(*env) == Some(s@),
            None => attestor_of(*env) is None,
        },
{
    let pd_key = String::from_str("public_data");
    let at_key = String::from_str("attestor");
    let pd = match member(env, &pd_key) {
        Some(pd) => pd,
        None => return None,
    };
    let first = match element(pd, 0) {
        Some(e) => e,
        None => return None,
    };
    match member(first, &at_key) {
        Some(a) => match &a.kind {
            JsonKind::Str(s) => Some(s.clone()),
            _ => None,
        },
        None => None,
    }
}

fn copy_strings(v: &Vec<String>) -> (r: Vec<String>)
    ensures
        r@ == v@,
{
    let mut r: Vec<String> = Vec::new();
    let mut i: usize = 0;
    while i < v.len()
        invariant
            i <= v.len(),
            r@ == v@.subrange(0, i as int),
        decreases v.len() - i,
    {
        r.push(v[i].clone());
        assert(v@.subrange(0, i + 1) =~= v@.subrange(0, i as int).push(v@[i as int]));
        i = i + 1;
    }
    assert(v@.subrange(0, v.len() as int) =~= v@);
    r
}

/// Builds the verification configuration from a parsed envelope
/// (`None`: the payload was not JSON) and the deployment's origins.
pub fn build_config(envelope: &Option<JsonNode>, d: &Deployment) -> (r: Result<
    VerificationConfig,
    ZkErrorCode,
>)
    ensures
        match r {
            Ok(c) => config_outcome(*envelope, *d) == Ok::<(Seq<char>, Seq<String>), ZkErrorCode>(
                (c.attestor_addr@, c.url@),
            ),
            Err(e) => config_outcome(*envelope, *d) == Err::<(Seq<char>, Seq<String>), ZkErrorCode>(
                e,
            ),
        },
{
    match envelope {
        None => Err(ZkErrorCode::ParseAttestationData),
        Some(env) => match attestor(env) {
            None => Err(ZkErrorCode::GetAttestorAddressFail),
            Some(a) => Ok(VerificationConfig { attestor_addr: a, url: copy_strings(&d.base_urls) }),
        },
    }
}

/// Checks the revealed documents against the claimed requests, runs the
/// deployment's queries on the first document and checks the shape of what
/// they found.
pub fn check_and_extract(v: &VerifiedAttestation, d: &Deployment) -> (r: Result<
    Vec<String>,
    ZkErrorCode,
>)
    ensures
        match r {
            Ok(vals) => checked_values(*v, *d) == Ok::<Seq<Seq<char>>, ZkErrorCode>(
                vals.deep_view(),
            ),
            Err(e) => checked_values(*v, *d) == Err::<Seq<Seq<char>>, ZkErrorCode>(e),
        },
{
    if v.messages.len() == 0 || v.messages[0].len() != v.request_count || v.request_count == 0 {
        return Err(ZkErrorCode::InvalidMessagesLength);
    }
    let doc = &v.messages[0][0];
    match get_json_values(doc, &d.queries) {
        None => Err(ZkErrorCode::GetJsonValueFail),
        Some(vals) => {
            let k = d.queries.len();
            if k > 0 && vals.len() % k == 0 && vals.len() >= d.min_values {
                Ok(vals)
            } else {
                Err(ZkErrorCode::InvalidJsonValueSize)
            }
        },
    }
}

/// Completes a run once the configuration step is done and, where it
/// succeeded, the verifier has answered: returns the run's public output,
/// ending in its status, and how the run ended.
pub fn finish(
    cfg: Result<VerificationConfig, ZkErrorCode>,
    verdict: &Result<VerifiedAttestation, String>,
    d: &Deployment,
) -> (r: (Vec<Commitment>, Result<(), ZktlsError>))
    requires
        deployment_ok(*d),
    ensures
        r.0@ == run_log(cfg, *verdict, *d),
        match r.1 {
            Ok(_) => run_result(cfg, *verdict, *d) is Ok,
            Err(e) => run_result(cfg, *verdict, *d) == Err::<(), (ZkErrorCode, Seq<char>)>(
                (e.code, e.msg@),
            ),
        },
{
    let ghost cfg0 = cfg;
    let mut log: Vec<Commitment> = Vec::new();
    let c = match cfg {
        Err(e) => {
            log.push(Commitment::Status(e.icode()));
            assert(log@ =~= run_log(cfg0, *verdict, *d));
            return (log, Err(ZktlsError::of(e)));
        },
        Ok(c) => c,
    };
    log.push(Commitment::Config(c));
    let ghost head = log@;
    assert(head == seq![Commitment::Config(c)]);
    let v = match verdict {
        Err(m) => {
            log.push(Commitment::Status(ZkErrorCode::VerifyAttestation.icode()));
            assert(log@ =~= run_log(cfg0, *verdict, *d));
            return (log, Err(ZktlsError { code: ZkErrorCode::VerifyAttestation, msg: m.clone() }));
        },
        Ok(v) => v,
    };
    let vals = match check_and_extract(v, d) {
        Err(e) => {
            log.push(Commitment::Status(e.icode()));
            assert(log@ =~= run_log(cfg0, *verdict, *d));
            return (log, Err(ZktlsError::of(e)));
        },
        Ok(vals) => vals,
    };
    let outcome = match evaluate(&vals, &d.predicate) {
        Err(e) => {
            log.push(Commitment::Status(e.icode()));
            Err(ZktlsError::of(e))
        },
        Ok(()) => {
            match &d.predicate {
                Predicate::ThresholdSum { symbol, threshold } => {
                    log.push(Commitment::Symbol(symbol.clone()));
                    log.push(Commitment::Threshold(*threshold));
                },
                Predicate::MatchThreshold { code, threshold } => {
                    log.push(Commitment::Symbol(code.clone()));
                    log.push(Commitment::Threshold(*threshold));
                },
            }
            log.push(Commitment::Status(STATUS_OK));
            Ok(())
        },
    };
    assert(log@ =~= run_log(cfg0, *verdict, *d));
    (log, outcome)
}

/// Where the first entry's revealed documents differ in number from its
/// claimed requests, the run commits the configuration and then the status
/// `InvalidMessagesLength`, and no predicate is evaluated.
pub proof fn lemma_count_mismatch_ends_run(
    c: VerificationConfig,
    v: VerifiedAttestation,
    d: Deployment,
)
    requires
        v.messages@.len() > 0,
        v.messages@[0]@.len() != v.request_count,
    ensures
        run_log(Ok(c), Ok(v), d) == seq![
            Commitment::Config(c),
            Commitment::Status(spec_code(ZkErrorCode::InvalidMessagesLength)),
        ],
{
    assert(run_log(Ok(c), Ok(v), d) =~= seq![
        Commitment::Config(c),
        Commitment::Status(spec_code(ZkErrorCode::InvalidMessagesLength)),
    ]);
}

/// The predicate only sees whole rows: a count of values that is a multiple
/// of the number of queries, and at least the deployment's minimum. A query
/// that does not fit the document, or values that are not whole rows, end
/// the run with `GetJsonValueFail` or `InvalidJsonValueSize` before the
/// predicate.
pub proof fn lemma_predicate_sees_whole_rows(
    c: VerificationConfig,
    v: VerifiedAttestation,
    d: Deployment,
)
    requires
        counts_consistent(v),
    ensures
        match checked_values(v, d) {
            Ok(vals) => d.queries@.len() > 0 && (vals.len() as int) % (d.queries@.len() as int) == 0
                && vals.len() >= d.min_values,
            Err(e) => (e == ZkErrorCode::GetJsonValueFail || e
                == ZkErrorCode::InvalidJsonValueSize) && run_log(Ok(c), Ok(v), d) == seq![
                Commitment::Config(c),
                Commitment::Status(spec_code(e)),
            ],
        },
{
    match checked_values(v, d) {
        Ok(vals) => {},
        Err(e) => {
            assert(run_log(Ok(c), Ok(v), d) =~= seq![
                Commitment::Config(c),
                Commitment::Status(spec_code(e)),
            ]);
        },
    }
}

/// A run is a function of its inputs: the same configuration outcome,
/// verifier answer and deployment give the same public output log.
pub proof fn lemma_run_deterministic(
    c1: Result<VerificationConfig, ZkErrorCode>,
    c2: Result<VerificationConfig, ZkErrorCode>,
    v1: Result<VerifiedAttestation, String>,
    v2: Result<VerifiedAttestation, String>,
    d1: Deployment,
    d2: Deployment,
)
    requires
        c1 == c2,
        v1 == v2,
        d1 == d2,
    ensures
        run_log(c1, v1, d1) == run_log(c2, v2, d2),
{
}

/// Every run ends by committing a status, on every path; the status is the
/// success status exactly when the predicate held.
pub proof fn lemma_log_ends_with_status(
    c: Result<VerificationConfig, ZkErrorCode>,
    v: Result<VerifiedAttestation, String>,
    d: Deployment,
)
    ensures
        run_log(c, v, d).len() > 0,
        run_log(c, v, d).last() is Status,
        (run_log(c, v, d).last() == Commitment::Status(STATUS_OK)) <==> (c is Ok && v is Ok
            && checked_values(v->Ok_0, d) is Ok && predicate_outcome(
            checked_values(v->Ok_0, d)->Ok_0,
            d.predicate,
        ) is Ok),
{
    match c {
        Err(e) => {
            crate::error::lemma_codes_distinct(e, e);
        },
        Ok(cfg) => {
            match v {
                Err(_) => {
                    crate::error::lemma_codes_distinct(
                        ZkErrorCode::VerifyAttestation,
                        ZkErrorCode::VerifyAttestation,
                    );
                },
                Ok(va) => match checked_values(va, d) {
                    Err(e) => {
                        crate::error::lemma_codes_distinct(e, e);
                    },
                    Ok(vals) => match predicate_outcome(vals, d.predicate) {
                        Err(e) => {
                            crate::error::lemma_codes_distinct(e, e);
                        },
                        Ok(_) => {},
                    },
                },
            }
        },
    }
}

} // verus!
