use vstd::prelude::*;
use vstd::string::StringExecFns;

verus! {

/// The kinds of failure that end a run inside the constrained environment.
#[derive(Clone, Copy, Debug, PartialEq, Eq, Structural)]
pub enum ZkErrorCode {
    /// The attestation payload is not well-formed JSON.
    ParseAttestationData,
    /// `public_data[0].attestor` is absent or not a string.
    GetAttestorAddressFail,
    /// The attestation verifier rejected the envelope.
    VerifyAttestation,
    /// The number of revealed documents differs from the number of requests.
    InvalidMessagesLength,
    /// A path query could not be evaluated against the document.
    GetJsonValueFail,
    /// The extracted values do not have the expected shape.
    InvalidJsonValueSize,
    /// An extracted identifier differs from the expected one.
    NotMatch,
    /// The business threshold is not met.
    Unsatisfied,
}

/// Status committed by a run that succeeded.
pub const STATUS_OK: i32 = 0;

/// The stable status code of each error kind.
pub open spec fn spec_code(e: ZkErrorCode) -> i32 {
    match e {
        ZkErrorCode::ParseAttestationData => 1,
        ZkErrorCode::GetAttestorAddressFail => 2,
        ZkErrorCode::VerifyAttestation => 3,
        ZkErrorCode::InvalidMessagesLength => 4,
        ZkErrorCode::GetJsonValueFail => 5,
        ZkErrorCode::InvalidJsonValueSize => 6,
        ZkErrorCode::NotMatch => 7,
        ZkErrorCode::Unsatisfied => 8,
    }
}

impl ZkErrorCode {
    /// The status code committed for this kind.
    pub fn icode(&self) -> (r: i32)
        ensures
            r == spec_code(*self),
            r != STATUS_OK,
    {
        match self {
            ZkErrorCode::ParseAttestationData => 1,
            ZkErrorCode::GetAttestorAddressFail => 2,
            ZkErrorCode::VerifyAttestation => 3,
            ZkErrorCode::InvalidMessagesLength => 4,
            ZkErrorCode::GetJsonValueFail => 5,
            ZkErrorCode::InvalidJsonValueSize => 6,
            ZkErrorCode::NotMatch => 7,
            ZkErrorCode::Unsatisfied => 8,
        }
    }
}

/// The message that a kind carries where nothing more specific is known.
pub open spec fn spec_message(e: ZkErrorCode) -> Seq<char> {
    match e {
        ZkErrorCode::ParseAttestationData => "attestation data is not valid JSON"@,
        ZkErrorCode::GetAttestorAddressFail => "public_data[0].attestor is missing or not a string"@,
        ZkErrorCode::VerifyAttestation => "attestation verification failed"@,
        ZkErrorCode::InvalidMessagesLength => "revealed messages do not match the requests"@,
        ZkErrorCode::GetJsonValueFail => "a path query does not fit the document"@,
        ZkErrorCode::InvalidJsonValueSize => "extracted values have the wrong shape"@,
        ZkErrorCode::NotMatch => "extracted identifier does not match"@,
        ZkErrorCode::Unsatisfied => "threshold not met"@,
    }
}

impl ZkErrorCode {
    /// The kind's own message.
    pub fn message(&self) -> (r: String)
        ensures
            r@ == spec_message(*self),
    {
        match self {
            ZkErrorCode::ParseAttestationData => String::from_str("attestation data is not valid JSON"),
            ZkErrorCode::GetAttestorAddressFail => String::from_str(
                "public_data[0].attestor is missing or not a string",
            ),
            ZkErrorCode::VerifyAttestation => String::from_str("attestation verification failed"),
            ZkErrorCode::InvalidMessagesLength => String::from_str(
                "revealed messages do not match the requests",
            ),
            ZkErrorCode::GetJsonValueFail => String::from_str("a path query does not fit the document"),
            ZkErrorCode::InvalidJsonValueSize => String::from_str("extracted values have the wrong shape"),
            ZkErrorCode::NotMatch => String::from_str("extracted identifier does not match"),
            ZkErrorCode::Unsatisfied => String::from_str("threshold not met"),
        }
    }
}

/// An error of a run: its kind and a human-readable message.
pub struct ZktlsError {
    pub code: ZkErrorCode,
    pub msg: String,
}

impl ZktlsError {
    /// The error of a kind, with the kind's own message.
    pub fn of(code: ZkErrorCode) -> (r: Self)
        ensures
            r.code == code,
            r.msg@ == spec_message(code),
    {
        ZktlsError { code, msg: code.message() }
    }

    /// The status code committed for this error.
    pub fn icode(&self) -> (r: i32)
        ensures
            r == spec_code(self.code),
    {
        self.code.icode()
    }
}

/// Distinct kinds have distinct codes, and none is the success status.
pub proof fn lemma_codes_distinct(a: ZkErrorCode, b: ZkErrorCode)
    ensures
        spec_code(a) == spec_code(b) <==> a == b,
        spec_code(a) != STATUS_OK,
{
}

} // verus!
