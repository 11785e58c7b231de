//! The COSE_Sign1 signature: the structure that is signed, and its ES256 check.
use vstd::prelude::*;

use p256::ecdsa::signature::Verifier;

use crate::cbor::head;
use crate::cbor::pow256;
use crate::cbor::string_item;
use crate::cbor::uint_be;
use crate::cbor::MAJOR_BYTES;
use crate::did::PublicKey;
use crate::error::CoseSignStructureError;
use crate::error::CoseVerificationError;

verus! {

/// The CBOR tag of COSE_Sign1.
pub const SIGN1_TAG: u64 = 18;

/// The length of each coordinate of a P-256 public key.
pub const COORDINATE_LEN: usize = 32;

/// The signature structures that passes may use.
#[derive(Debug, Clone, Copy, PartialEq, Eq, Structural)]
pub enum CoseSignStructure {
    Sign1,
}

impl CoseSignStructure {
    /// The structure named by the envelope's CBOR tag, if it has one.
    pub fn from_tag(tag: Option<u64>) -> (r: Result<CoseSignStructure, CoseSignStructureError>)
        ensures
            r == match tag {
                Some(t) => if t == SIGN1_TAG {
                    Ok(CoseSignStructure::Sign1)
                } else {
                    Err(CoseSignStructureError::InvalidSignStructure)
                },
                None => Err(CoseSignStructureError::MissingTag),
            },
    {
        match tag {
            Some(t) => if t == SIGN1_TAG {
                Ok(CoseSignStructure::Sign1)
            } else {
                Err(CoseSignStructureError::InvalidSignStructure)
            },
            None => Err(CoseSignStructureError::MissingTag),
        }
    }
}

/// The signature of an envelope, with the exact bytes that it covers.
#[derive(Debug, Clone, PartialEq, Eq)]
pub struct CoseSignature {
    /// The raw signature: r and s, 32 bytes each.
    pub bytes: Vec<u8>,
    pub sign_structure: CoseSignStructure,
    /// The protected headers as they stand in the envelope.
    pub protected_headers_raw: Vec<u8>,
    /// The CWT payload as it stands in the envelope.
    pub cwt_payload_raw: Vec<u8>,
}

/// The `n` low bytes of `v`, most significant first.
pub open spec fn be_bytes(v: nat, n: nat) -> Seq<u8>
    decreases n,
{
    if n == 0 {
        seq![]
    } else {
        be_bytes(v / 256, (n - 1) as nat).push((v % 256) as u8)
    }
}

/// The shortest CBOR head of major type `major` with argument `v`.
pub open spec fn cbor_head(major: u8, v: nat) -> Seq<u8> {
    let top = major as nat * 32;
    if v < 24 {
        seq![(top + v) as u8]
    } else if v < 0x100 {
        seq![(top + 24) as u8] + be_bytes(v, 1)
    } else if v < 0x10000 {
        seq![(top + 25) as u8] + be_bytes(v, 2)
    } else if v < 0x1_0000_0000 {
        seq![(top + 26) as u8] + be_bytes(v, 4)
    } else {
        seq![(top + 27) as u8] + be_bytes(v, 8)
    }
}

/// The CBOR byte string holding `b`.
pub open spec fn cbor_bytes(b: Seq<u8>) -> Seq<u8> {
    cbor_head(crate::cbor::MAJOR_BYTES, b.len()) + b
}

/// `Signature1` as a CBOR text string.
pub open spec fn signature1_text() -> Seq<u8> {
    seq![0x6au8, 0x53, 0x69, 0x67, 0x6e, 0x61, 0x74, 0x75, 0x72, 0x65, 0x31]
}

/// The bytes that a COSE_Sign1 signature covers: the CBOR array
/// `["Signature1", protected headers, empty external data, payload]`.
pub open spec fn sig_structure_bytes(protected_headers: Seq<u8>, payload: Seq<u8>) -> Seq<u8> {
    seq![0x84u8] + signature1_text() + cbor_bytes(protected_headers) + seq![0x40u8] + cbor_bytes(
        payload,
    )
}

/// The SEC1 uncompressed encoding of the point `(x, y)`.
pub open spec fn sec1_uncompressed(x: Seq<u8>, y: Seq<u8>) -> Seq<u8> {
    seq![0x04u8] + x + y
}

/// Whether ES256 accepts `signature` over `message` for the SEC1-encoded `public_key`.
pub uninterp spec fn es256_accepts(public_key: Seq<u8>, message: Seq<u8>, signature: Seq<u8>) -> bool;

/// Relies on p256's `VerifyingKey::from_sec1_bytes`, `Signature::try_from` (64 bytes,
/// r then s) and `Verifier::verify` (SHA-256 of the message, then ECDSA over P-256):
/// whether the signature is valid. A key or signature that does not decode is not.
#[verifier::external_body]
fn es256_verify(public_key: &[u8], message: &[u8], signature: &[u8]) -> (r: bool)
    ensures
        r == es256_accepts(public_key@, message@, signature@),
{
    match (
        p256::ecdsa::VerifyingKey::from_sec1_bytes(public_key),
        p256::ecdsa::Signature::try_from(signature),
    ) {
        (Ok(key), Ok(sig)) => key.verify(message, &sig).is_ok(),
        _ => false,
    }
}

fn push_all(out: &mut Vec<u8>, b: &[u8])
    ensures
        final(out)@ == old(out)@ + b@,
{
    let mut i: usize = 0;
    while i < b.len()
        invariant
            i <= b@.len(),
            out@ == old(out)@ + b@.subrange(0, i as int),
        decreases b@.len() - i,
    {
        out.push(b[i]);
        assert(b@.subrange(0, i + 1) =~= b@.subrange(0, i as int).push(b@[i as int]));
        i = i + 1;
    }
    assert(b@.subrange(0, i as int) =~= b@);
}

fn push_be_bytes(out: &mut Vec<u8>, v: u64, n: usize)
    requires
        n <= 8,
    ensures
        final(out)@ == old(out)@ + be_bytes(v as nat, n as nat),
{
    let mut k: usize = n;
    let ghost start = out@;
    let mut bytes: Vec<u8> = Vec::new();
    let mut rest: u64 = v;
    assert(crate::cbor::pow256(0) == 1) by {
        reveal_with_fuel(crate::cbor::pow256, 1);
    }
    assert(be_bytes(v as nat, n as nat) =~= be_bytes(v as nat, n as nat) + bytes@);
    assert((n - k) as nat == 0);
    assert(v as nat / crate::cbor::pow256((n - k) as nat) == v as nat);
    while k > 0
        invariant
            k <= n,
            rest as nat == v as nat / crate::cbor::pow256((n - k) as nat),
            be_bytes(v as nat, n as nat) == be_bytes(rest as nat, k as nat) + bytes@,
        decreases k,
    {
        proof {
            let p = crate::cbor::pow256((n - k) as nat);
            assert(crate::cbor::pow256((n - k + 1) as nat) == 256 * p);
            assert(p > 0) by {
                lemma_pow256_positive((n - k) as nat);
            }
            vstd::arithmetic::div_mod::lemma_div_denominator(v as int, p as int, 256);
            assert(v as nat / (p * 256) == (v as nat / p) / 256);
        }
        let ghost old_bytes = bytes@;
        bytes.insert(0, (rest % 256) as u8);
        assert(be_bytes(rest as nat, k as nat) == be_bytes(rest as nat / 256, (k - 1) as nat).push(
            (rest as nat % 256) as u8,
        ));
        assert(be_bytes(rest as nat / 256, (k - 1) as nat) + bytes@ =~= be_bytes(rest as nat, k as nat) + old_bytes);
        rest = rest / 256;
        k = k - 1;
    }
    assert(be_bytes(rest as nat, 0) + bytes@ =~= bytes@);
    push_all(out, bytes.as_slice());
}

proof fn lemma_pow256_positive(n: nat)
    ensures
        crate::cbor::pow256(n) > 0,
    decreases n,
{
    if n > 0 {
        lemma_pow256_positive((n - 1) as nat);
    }
}

fn push_bytes_head(out: &mut Vec<u8>, len: usize)
    ensures
        final(out)@ == old(out)@ + cbor_head(crate::cbor::MAJOR_BYTES, len as nat),
{
    let v = len as u64;
    if v < 24 {
        out.push(0x40 + v as u8);
        assert(final(out)@ =~= old(out)@ + cbor_head(crate::cbor::MAJOR_BYTES, len as nat));
    } else if v < 0x100 {
        out.push(0x58);
        push_be_bytes(out, v, 1);
        assert(final(out)@ =~= old(out)@ + cbor_head(crate::cbor::MAJOR_BYTES, len as nat));
    } else if v < 0x10000 {
        out.push(0x59);
        push_be_bytes(out, v, 2);
        assert(final(out)@ =~= old(out)@ + cbor_head(crate::cbor::MAJOR_BYTES, len as nat));
    } else if v < 0x1_0000_0000 {
        out.push(0x5a);
        push_be_bytes(out, v, 4);
        assert(final(out)@ =~= old(out)@ + cbor_head(crate::cbor::MAJOR_BYTES, len as nat));
    } else {
        out.push(0x5b);
        push_be_bytes(out, v, 8);
        assert(final(out)@ =~= old(out)@ + cbor_head(crate::cbor::MAJOR_BYTES, len as nat));
    }
}

impl CoseSignature {
    /// The bytes that the signature covers.
    pub fn sig_structure(&self) -> (r: Vec<u8>)
        ensures
            r@ == sig_structure_bytes(self.protected_headers_raw@, self.cwt_payload_raw@),
    {
        let mut out: Vec<u8> = Vec::new();
        match self.sign_structure {
            CoseSignStructure::Sign1 => {
                out.push(0x84);
                let text: [u8; 11] = [0x6a, 0x53, 0x69, 0x67, 0x6e, 0x61, 0x74, 0x75, 0x72, 0x65, 0x31];
                push_all(&mut out, text.as_slice());
                assert(text@ =~= signature1_text());
                push_bytes_head(&mut out, self.protected_headers_raw.len());
                push_all(&mut out, self.protected_headers_raw.as_slice());
                out.push(0x40);
                push_bytes_head(&mut out, self.cwt_payload_raw.len());
                push_all(&mut out, self.cwt_payload_raw.as_slice());
            },
        }
        assert(out@ =~= sig_structure_bytes(self.protected_headers_raw@, self.cwt_payload_raw@));
        out
    }

    /// Whether this signature is a valid ES256 signature by `key`.
    pub open spec fn accepted_by(&self, key: PublicKey) -> bool {
        key.x@.len() == COORDINATE_LEN && key.y@.len() == COORDINATE_LEN && es256_accepts(
            sec1_uncompressed(key.x@, key.y@),
            sig_structure_bytes(self.protected_headers_raw@, self.cwt_payload_raw@),
            self.bytes@,
        )
    }

    /// Checks the signature against `key`. Every failure is the same opaque error.
    pub fn verify(&self, key: &PublicKey) -> (r: Result<(), CoseVerificationError>)
        ensures
            self.accepted_by(*key) ==> r is Ok,
            !self.accepted_by(*key) ==> r == Err::<(), _>(CoseVerificationError::VerificationFailed),
    {
        if key.x.len() != COORDINATE_LEN || key.y.len() != COORDINATE_LEN {
            return Err(CoseVerificationError::VerificationFailed);
        }
        let mut sec1: Vec<u8> = Vec::new();
        sec1.push(0x04);
        push_all(&mut sec1, key.x.as_slice());
        push_all(&mut sec1, key.y.as_slice());
        assert(sec1@ =~= sec1_uncompressed(key.x@, key.y@));
        let message = self.sig_structure();
        if es256_verify(sec1.as_slice(), message.as_slice(), self.bytes.as_slice()) {
            Ok(())
        } else {
            Err(CoseVerificationError::VerificationFailed)
        }
    }
}

proof fn lemma_uint_be_of_be_bytes(b: Seq<u8>, p: int, v: nat, n: nat)
    requires
        0 <= p,
        p + n <= b.len(),
        b.subrange(p, p + n) == be_bytes(v, n),
    ensures
        uint_be(b, p, n) == v % pow256(n),
    decreases n,
{
    if n == 0 {
        assert(v % 1 == 0);
    } else {
        let prefix = be_bytes(v / 256, (n - 1) as nat);
        lemma_be_bytes_len(v / 256, (n - 1) as nat);
        assert(be_bytes(v, n) == prefix.push((v % 256) as u8));
        assert(b.subrange(p, p + n - 1) =~= b.subrange(p, p + n).subrange(0, n - 1));
        assert(b.subrange(p, p + n).subrange(0, n - 1) =~= prefix);
        assert(b[p + n - 1] == b.subrange(p, p + n)[n - 1]);
        lemma_uint_be_of_be_bytes(b, p, v / 256, (n - 1) as nat);
        lemma_pow256_positive((n - 1) as nat);
        vstd::arithmetic::div_mod::lemma_breakdown(v as int, 256, pow256((n - 1) as nat) as int);
    }
}

proof fn lemma_be_bytes_len(v: nat, n: nat)
    ensures
        be_bytes(v, n).len() == n,
    decreases n,
{
    if n > 0 {
        lemma_be_bytes_len(v / 256, (n - 1) as nat);
    }
}

/// The head that `cbor_head` writes reads back as the same major type and argument.
proof fn lemma_head_round_trip(b: Seq<u8>, p: int, major: u8, v: nat)
    requires
        major < 8,
        v <= u64::MAX,
        0 <= p,
        p + cbor_head(major, v).len() <= b.len(),
        b.subrange(p, p + cbor_head(major, v).len()) == cbor_head(major, v),
    ensures
        head(b, p) == Some((major, v as u64, p + cbor_head(major, v).len())),
{
    let h = cbor_head(major, v);
    assert(b[p] == h[0]);
    let top = major as nat * 32;
    let w: nat = if v < 24 {
        0
    } else if v < 0x100 {
        1
    } else if v < 0x10000 {
        2
    } else if v < 0x1_0000_0000 {
        4
    } else {
        8
    };
    lemma_be_bytes_len(v, w);
    if v >= 24 {
        assert(b.subrange(p + 1, p + 1 + w) =~= h.subrange(1, 1 + w as int));
        assert(h.subrange(1, 1 + w as int) =~= be_bytes(v, w));
        lemma_uint_be_of_be_bytes(b, p + 1, v, w);
        assert(pow256(1) == 0x100 && pow256(2) == 0x10000 && pow256(4) == 0x1_0000_0000 && pow256(8)
            == 0x1_0000_0000_0000_0000) by {
            reveal_with_fuel(pow256, 9);
        }
        vstd::arithmetic::div_mod::lemma_small_mod(v, pow256(w));
        let ai: nat = if w == 1 {
            24
        } else if w == 2 {
            25
        } else if w == 4 {
            26
        } else {
            27
        };
        assert(b[p] == (top + ai) as u8);
        assert((top + ai) / 32 == major as nat && (top + ai) % 32 == ai) by (nonlinear_arith)
            requires
                top == major as nat * 32,
                ai < 32,
        ;
    } else {
        assert((top + v) / 32 == major as nat && (top + v) % 32 == v) by (nonlinear_arith)
            requires
                top == major as nat * 32,
                v < 24,
        ;
    }
}

/// Where the byte string `x` starts in `b` (at `p`), `string_item` reads it back.
proof fn lemma_bytes_round_trip(b: Seq<u8>, p: int, x: Seq<u8>)
    requires
        x.len() <= u64::MAX,
        0 <= p,
        p + cbor_bytes(x).len() <= b.len(),
        b.subrange(p, p + cbor_bytes(x).len()) == cbor_bytes(x),
    ensures
        string_item(b, p, MAJOR_BYTES) == Some((x, p + cbor_bytes(x).len())),
{
    let h = cbor_head(MAJOR_BYTES, x.len());
    assert(b.subrange(p, p + h.len()) =~= cbor_bytes(x).subrange(0, h.len() as int));
    assert(cbor_bytes(x).subrange(0, h.len() as int) =~= h);
    lemma_head_round_trip(b, p, MAJOR_BYTES, x.len());
    assert(b.subrange(p + h.len(), p + h.len() + x.len()) =~= cbor_bytes(x).subrange(
        h.len() as int,
        cbor_bytes(x).len() as int,
    ));
}

/// The bytes that a signature covers determine the protected headers and the payload
/// they were built from: envelopes that differ in either segment, by as little as one
/// bit, ask their signatures to cover different bytes.
pub proof fn lemma_signed_bytes_determine_segments(
    protected_headers_1: Seq<u8>,
    payload_1: Seq<u8>,
    protected_headers_2: Seq<u8>,
    payload_2: Seq<u8>,
)
    requires
        protected_headers_1.len() <= u64::MAX,
        payload_1.len() <= u64::MAX,
        protected_headers_2.len() <= u64::MAX,
        payload_2.len() <= u64::MAX,
        sig_structure_bytes(protected_headers_1, payload_1) == sig_structure_bytes(
            protected_headers_2,
            payload_2,
        ),
    ensures
        protected_headers_1 == protected_headers_2,
        payload_1 == payload_2,
{
    lemma_segments_read_back(protected_headers_1, payload_1);
    lemma_segments_read_back(protected_headers_2, payload_2);
}

proof fn lemma_segments_read_back(ph: Seq<u8>, pl: Seq<u8>)
    requires
        ph.len() <= u64::MAX,
        pl.len() <= u64::MAX,
    ensures
        ({
            let s = sig_structure_bytes(ph, pl);
            let e: int = 12 + cbor_bytes(ph).len() as int;
            &&& string_item(s, 12, MAJOR_BYTES) == Some((ph, e))
            &&& string_item(s, e + 1, MAJOR_BYTES) == Some((pl, e + 1 + cbor_bytes(pl).len()))
        }),
{
    let s = sig_structure_bytes(ph, pl);
    let e: int = 12 + cbor_bytes(ph).len() as int;
    assert(s.subrange(12, e) =~= cbor_bytes(ph));
    lemma_bytes_round_trip(s, 12, ph);
    assert(s.subrange(e + 1, e + 1 + cbor_bytes(pl).len()) =~= cbor_bytes(pl));
    lemma_bytes_round_trip(s, e + 1, pl);
}

} // verus!
