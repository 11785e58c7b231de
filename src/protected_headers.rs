//! The protected headers of the envelope: a CBOR map of the key id (label 4) and the
//! algorithm (label 1).
use vstd::prelude::*;

use crate::cbor::close;
use crate::cbor::container;
use crate::cbor::head;
use crate::cbor::read_close;
use crate::cbor::read_container;
use crate::cbor::int_item;
use crate::cbor::read_head;
use crate::cbor::read_int;
use crate::cbor::read_utf8;
use crate::cbor::utf8_item;
use crate::cbor::MAJOR_MAP;
use crate::cbor::MAJOR_UNSIGNED;
use crate::error::Field;
use crate::error::PayloadError;
use crate::error::SignatureAlgorithmError;

verus! {

/// The label of the key id.
pub const KID_KEY: u64 = 4;

/// The label of the algorithm.
pub const ALG_KEY: u64 = 1;

/// The COSE identifier of ES256.
pub const ES256_ID: i128 = -7;

/// The signature algorithms that passes may use.
#[derive(Debug, Clone, Copy, PartialEq, Eq, Structural)]
pub enum SignatureAlgorithm {
    /// ECDSA over P-256 with SHA-256.
    Es256,
}

impl SignatureAlgorithm {
    /// The algorithm with COSE identifier `id`.
    pub fn from_cose_id(id: i8) -> (r: Result<SignatureAlgorithm, SignatureAlgorithmError>)
        ensures
            id == ES256_ID <==> r == Ok::<_, SignatureAlgorithmError>(SignatureAlgorithm::Es256),
            id != ES256_ID <==> r == Err::<SignatureAlgorithm, _>(
                SignatureAlgorithmError::SignatureAlgorithm,
            ),
    {
        if id as i128 == ES256_ID {
            Ok(SignatureAlgorithm::Es256)
        } else {
            Err(SignatureAlgorithmError::SignatureAlgorithm)
        }
    }
}

/// The protected headers of a pass.
#[derive(Debug, Clone, PartialEq, Eq)]
pub struct ProtectedHeaders {
    /// The id of the issuer's key that signed the pass.
    pub kid: String,
    pub algorithm: SignatureAlgorithm,
}

/// Reads the `n` entries of the header map from `p`, given the key id and whether the
/// algorithm was seen so far: the key id, whether the algorithm was seen, and where the
/// entries end.
pub open spec fn header_entries(
    b: Seq<u8>,
    p: int,
    n: nat,
    kid: Option<Seq<char>>,
    alg: bool,
) -> Result<(Option<Seq<char>>, bool, int), PayloadError>
    decreases n,
{
    if n == 0 {
        Ok((kid, alg, p))
    } else {
        match head(b, p) {
            None => Err(PayloadError::Malformed),
            Some((m, key, q)) => if m != MAJOR_UNSIGNED || key > 255 {
                Err(PayloadError::Malformed)
            } else if key == KID_KEY {
                match utf8_item(b, q) {
                    None => Err(PayloadError::Malformed),
                    Some((t, q2)) => header_entries(b, q2, (n - 1) as nat, Some(t), alg),
                }
            } else if key == ALG_KEY {
                match int_item(b, q) {
                    None => Err(PayloadError::Malformed),
                    Some((v, q2)) => if v < -128 || v > 127 {
                        Err(PayloadError::Malformed)
                    } else if v != ES256_ID {
                        Err(PayloadError::SignatureAlgorithm(SignatureAlgorithmError::SignatureAlgorithm))
                    } else {
                        header_entries(b, q2, (n - 1) as nat, kid, true)
                    },
                }
            } else {
                Err(PayloadError::UnknownIntegerField(key as i128))
            },
        }
    }
}

/// The key id that the protected-header bytes `b` hold, or why they are refused. The key
/// id may be given as text or as a byte string holding UTF-8. Both
/// fields are mandatory, any other label is refused, a later entry overrides an earlier
/// one, and nothing may follow the map, which may have definite or indefinite length.
pub open spec fn protected_headers(b: Seq<u8>) -> Result<Seq<char>, PayloadError> {
    match container(b, 0, MAJOR_MAP) {
        None => Err(PayloadError::Malformed),
        Some((n, q, indefinite)) => match header_entries(b, q, n, None, false) {
            Err(e) => Err(e),
            Ok((kid, alg, end)) => if !alg {
                Err(PayloadError::MissingField(Field::Algorithm))
            } else if kid is None {
                Err(PayloadError::MissingField(Field::KeyId))
            } else if close(b, end, indefinite) != Some(b.len() as int) {
                Err(PayloadError::Malformed)
            } else {
                Ok(kid.unwrap())
            },
        },
    }
}

/// The characters of an optional string.
pub open spec fn opt_chars(s: Option<String>) -> Option<Seq<char>> {
    match s {
        Some(t) => Some(t@),
        None => None,
    }
}

impl ProtectedHeaders {
    /// Decodes the protected headers from their bytes.
    pub fn decode(b: &[u8]) -> (r: Result<ProtectedHeaders, PayloadError>)
        ensures
            match protected_headers(b@) {
                Ok(kid) => r matches Ok(h) && h.kid@ == kid && h.algorithm
                    == SignatureAlgorithm::Es256,
                Err(e) => r == Err::<ProtectedHeaders, _>(e),
            },
    {
        let (n, q, indefinite) = match read_container(b, 0, MAJOR_MAP) {
            Some(h) => h,
            None => return Err(PayloadError::Malformed),
        };
        let mut kid: Option<String> = None;
        let mut alg = false;
        let mut pos = q;
        let mut i: u64 = 0;
        while i < n
            invariant
                i <= n,
                pos <= b@.len(),
                container(b@, 0, MAJOR_MAP) == Some((n as nat, q as int, indefinite)),
                header_entries(b@, q as int, n as nat, None, false) == header_entries(
                    b@,
                    pos as int,
                    (n - i) as nat,
                    opt_chars(kid),
                    alg,
                ),
            decreases n - i,
        {
            let (km, key, kq) = match read_head(b, pos) {
                Some(h) => h,
                None => return Err(PayloadError::Malformed),
            };
            if km != MAJOR_UNSIGNED || key > 255 {
                return Err(PayloadError::Malformed);
            }
            if key == KID_KEY {
                match read_utf8(b, kq) {
                    Some((t, next)) => {
                        kid = Some(t);
                        pos = next;
                    },
                    None => return Err(PayloadError::Malformed),
                }
            } else if key == ALG_KEY {
                match read_int(b, kq) {
                    Some((v, next)) => {
                        if v < -128 || v > 127 {
                            return Err(PayloadError::Malformed);
                        }
                        if SignatureAlgorithm::from_cose_id(v as i8).is_err() {
                            return Err(
                                PayloadError::SignatureAlgorithm(
                                    SignatureAlgorithmError::SignatureAlgorithm,
                                ),
                            );
                        }
                        alg = true;
                        pos = next;
                    },
                    None => return Err(PayloadError::Malformed),
                }
            } else {
                return Err(PayloadError::UnknownIntegerField(key as i128));
            }
            i = i + 1;
        }
        if !alg {
            return Err(PayloadError::MissingField(Field::Algorithm));
        }
        let kid = match kid {
            Some(k) => k,
            None => return Err(PayloadError::MissingField(Field::KeyId)),
        };
        match read_close(b, pos, indefinite) {
            Some(e) => if e != b.len() {
                return Err(PayloadError::Malformed);
            },
            None => return Err(PayloadError::Malformed),
        }
        Ok(ProtectedHeaders { kid, algorithm: SignatureAlgorithm::Es256 })
    }
}

} // verus!
