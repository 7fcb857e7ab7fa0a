use vstd::prelude::*;
use vstd::string::StringExecFns;

verus! {

/// The persisted proof: verifying key, proof identifier, proof and public
/// output, each as `0x`-prefixed hex text (the identifier is empty for a
/// proof made locally).
pub struct SP1ZktlsProofFixture {
    pub vk: String,
    pub proof_id: String,
    pub proof: String,
    pub public_values: String,
}

/// The lowercase hex digit of a nibble.
pub open spec fn hex_digit(n: nat) -> char {
    seq!['0', '1', '2', '3', '4', '5', '6', '7', '8', '9', 'a', 'b', 'c', 'd', 'e', 'f'][n as int]
}

/// Two lowercase hex digits per byte, high nibble first.
pub open spec fn hex_of(b: Seq<u8>) -> Seq<char>
    decreases b.len(),
{
    if b.len() == 0 {
        Seq::empty()
    } else {
        hex_of(b.drop_last()) + seq![hex_digit((b.last() / 16) as nat), hex_digit((b.last() % 16) as nat)]
    }
}

/// `0x` followed by the hex digits of `b`.
pub open spec fn prefixed_hex_of(b: Seq<u8>) -> Seq<char> {
    seq!['0', 'x'] + hex_of(b)
}

pub proof fn lemma_hex_len(b: Seq<u8>)
    ensures
        hex_of(b).len() == 2 * b.len(),
    decreases b.len(),
{
    if b.len() > 0 {
        lemma_hex_len(b.drop_last());
    }
}

/// Relies on hex::encode: two lowercase digits per byte, high nibble first.
#[verifier::external_body]
fn hex_encode(b: &Vec<u8>) -> (r: String)
    ensures
        r@ == hex_of(b@),
{
    hex::encode(b)
}

/// `0x` followed by the lowercase hex digits of `b`.
pub fn prefixed_hex(b: &Vec<u8>) -> (r: String)
    ensures
        r@ == prefixed_hex_of(b@),
        r@.len() == 2 + 2 * b@.len(),
{
    let mut r = String::from_str("0x");
    proof {
        reveal_strlit("0x");
        lemma_hex_len(b@);
    }
    let h = hex_encode(b);
    r.append(h.as_str());
    assert(r@ =~= prefixed_hex_of(b@));
    r
}

impl SP1ZktlsProofFixture {
    /// Assembles the fixture from the serialized verifying key and proof,
    /// the remote request identifier (`None` for a local proof) and the raw
    /// public output.
    pub fn assemble(
        vk: &Vec<u8>,
        proof: &Vec<u8>,
        request_id: Option<&Vec<u8>>,
        public_values: &Vec<u8>,
    ) -> (r: Self)
        ensures
            r.vk@ == prefixed_hex_of(vk@),
            r.proof@ == prefixed_hex_of(proof@),
            r.public_values@ == prefixed_hex_of(public_values@),
            match request_id {
                Some(id) => r.proof_id@ == prefixed_hex_of(id@) && r.proof_id@.len() > 0,
                None => r.proof_id@.len() == 0,
            },
    {
        let proof_id = match request_id {
            Some(id) => prefixed_hex(id),
            None => String::new(),
        };
        SP1ZktlsProofFixture {
            vk: prefixed_hex(vk),
            proof_id,
            proof: prefixed_hex(proof),
            public_values: prefixed_hex(public_values),
        }
    }
}

} // verus!
