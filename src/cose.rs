//! The COSE_Sign1 envelope: a tagged array of protected headers, unprotected headers,
//! payload and signature. The protected headers and the payload are kept as the exact
//! bytes that the envelope holds, since those are what the signature covers.
use vstd::prelude::*;

use crate::cbor::close;
use crate::cbor::container;
use crate::cbor::head;
use crate::cbor::read_close;
use crate::cbor::read_container;
use crate::cbor::read_head;
use crate::cbor::read_string_copy;
use crate::cbor::skip;
use crate::cbor::skip_item;
use crate::cbor::string_item;
use crate::cbor::MAJOR_ARRAY;
use crate::cbor::MAJOR_BYTES;
use crate::cbor::MAJOR_TAG;
use crate::cbor::MAX_DEPTH;
use crate::cwt::claims;
use crate::cwt::CwtClaims;
use crate::did::key_lookup;
use crate::did::DecentralizedIdentifierError;
use crate::did::Document;
use crate::did::PublicKey;
use crate::error::CoseSegment;
use crate::error::CoseSignStructureError;
use crate::error::CoseVerificationError;
use crate::error::PayloadError;
use crate::protected_headers::protected_headers;
use crate::protected_headers::ProtectedHeaders;
use crate::protected_headers::SignatureAlgorithm;
use crate::signature::CoseSignStructure;
use crate::signature::CoseSignature;
use crate::signature::SIGN1_TAG;

verus! {

/// A decoded pass envelope.
#[derive(Debug, Clone, PartialEq, Eq)]
pub struct CoseStructure {
    pub protected_headers: ProtectedHeaders,
    pub cwt_payload: CwtClaims,
    pub signature: CoseSignature,
}

/// The protected-header bytes, payload bytes and signature bytes of the envelope `b`,
/// or why it is refused. The array may have definite or indefinite length; the
/// unprotected headers may hold anything well-formed, and are ignored.
pub open spec fn envelope(b: Seq<u8>) -> Result<(Seq<u8>, Seq<u8>, Seq<u8>), PayloadError> {
    match head(b, 0) {
        None => Err(PayloadError::Malformed),
        Some((m, tag, q)) => if m != MAJOR_TAG {
            Err(PayloadError::SignStructure(CoseSignStructureError::MissingTag))
        } else if tag != SIGN1_TAG {
            Err(PayloadError::SignStructure(CoseSignStructureError::InvalidSignStructure))
        } else {
            match container(b, q, MAJOR_ARRAY) {
                None => Err(PayloadError::Malformed),
                Some((n, q2, indefinite)) => if n < 1 {
                    Err(PayloadError::MissingSegment(CoseSegment::ProtectedHeaders))
                } else {
                    match string_item(b, q2, MAJOR_BYTES) {
                        None => Err(PayloadError::Malformed),
                        Some((ph, q3)) => if n < 2 {
                            Err(PayloadError::MissingSegment(CoseSegment::UnprotectedHeaders))
                        } else {
                            match skip(b, q3, MAX_DEPTH as nat) {
                                None => Err(PayloadError::Malformed),
                                Some(q4) => if n < 3 {
                                    Err(PayloadError::MissingSegment(CoseSegment::CwtPayload))
                                } else {
                                    match string_item(b, q4, MAJOR_BYTES) {
                                        None => Err(PayloadError::Malformed),
                                        Some((pl, q5)) => if n < 4 {
                                            Err(PayloadError::MissingSegment(CoseSegment::Signature))
                                        } else {
                                            match string_item(b, q5, MAJOR_BYTES) {
                                                None => Err(PayloadError::Malformed),
                                                Some((sig, q6)) => if n > 4 || close(b, q6, indefinite)
                                                    != Some(b.len() as int) {
                                                    Err(PayloadError::Malformed)
                                                } else {
                                                    Ok((ph, pl, sig))
                                                },
                                            }
                                        },
                                    }
                                },
                            }
                        },
                    }
                },
            }
        },
    }
}

/// Whether `r` is what decoding the envelope bytes `b` gives: the envelope, then its
/// protected headers, then its claims.
pub open spec fn cose_result(b: Seq<u8>, r: Result<CoseStructure, PayloadError>) -> bool {
    match envelope(b) {
        Err(e) => r == Err::<CoseStructure, _>(e),
        Ok((ph, pl, sig)) => match protected_headers(ph) {
            Err(e) => r == Err::<CoseStructure, _>(e),
            Ok(kid) => match claims(pl) {
                Err(e) => r == Err::<CoseStructure, _>(e),
                Ok(c) => r matches Ok(s) && s.protected_headers.kid@ == kid
                    && s.protected_headers.algorithm == SignatureAlgorithm::Es256 && s.cwt_payload@
                    == c && s.signature.bytes@ == sig && s.signature.sign_structure
                    == CoseSignStructure::Sign1 && s.signature.protected_headers_raw@ == ph
                    && s.signature.cwt_payload_raw@ == pl,
            },
        },
    }
}

/// Reads the envelope: the protected-header, payload and signature bytes.
fn read_envelope(b: &[u8]) -> (r: Result<(Vec<u8>, Vec<u8>, Vec<u8>), PayloadError>)
    ensures
        match envelope(b@) {
            Ok((ph, pl, sig)) => r matches Ok((p, l, s)) && p@ == ph && l@ == pl && s@ == sig,
            Err(e) => r == Err::<(Vec<u8>, Vec<u8>, Vec<u8>), _>(e),
        },
{
    let (m, tag, q) = match read_head(b, 0) {
        Some(h) => h,
        None => return Err(PayloadError::Malformed),
    };
    let tag = if m == MAJOR_TAG {
        Some(tag)
    } else {
        None
    };
    if let Err(e) = CoseSignStructure::from_tag(tag) {
        return Err(PayloadError::SignStructure(e));
    }
    let (n, q2, indefinite) = match read_container(b, q, MAJOR_ARRAY) {
        Some(h) => h,
        None => return Err(PayloadError::Malformed),
    };
    if n < 1 {
        return Err(PayloadError::MissingSegment(CoseSegment::ProtectedHeaders));
    }
    let (ph, q3) = match read_string_copy(b, q2, MAJOR_BYTES) {
        Some(s) => s,
        None => return Err(PayloadError::Malformed),
    };
    if n < 2 {
        return Err(PayloadError::MissingSegment(CoseSegment::UnprotectedHeaders));
    }
    let q4 = match skip_item(b, q3, MAX_DEPTH) {
        Some(e) => e,
        None => return Err(PayloadError::Malformed),
    };
    if n < 3 {
        return Err(PayloadError::MissingSegment(CoseSegment::CwtPayload));
    }
    let (pl, q5) = match read_string_copy(b, q4, MAJOR_BYTES) {
        Some(s) => s,
        None => return Err(PayloadError::Malformed),
    };
    if n < 4 {
        return Err(PayloadError::MissingSegment(CoseSegment::Signature));
    }
    let (sig, q6) = match read_string_copy(b, q5, MAJOR_BYTES) {
        Some(s) => s,
        None => return Err(PayloadError::Malformed),
    };
    if n > 4 {
        return Err(PayloadError::Malformed);
    }
    match read_close(b, q6, indefinite) {
        Some(e) => if e != b.len() {
            return Err(PayloadError::Malformed);
        },
        None => return Err(PayloadError::Malformed),
    }
    Ok((ph, pl, sig))
}

impl CoseStructure {
    /// Decodes an envelope from the bytes of a barcode.
    pub fn decode(b: &[u8]) -> (r: Result<CoseStructure, PayloadError>)
        ensures
            cose_result(b@, r),
    {
        let (ph, pl, sig) = match read_envelope(b) {
            Ok(parts) => parts,
            Err(e) => return Err(e),
        };
        let protected_headers = match ProtectedHeaders::decode(ph.as_slice()) {
            Ok(h) => h,
            Err(e) => return Err(e),
        };
        let cwt_payload = match CwtClaims::decode(pl.as_slice()) {
            Ok(c) => c,
            Err(e) => return Err(e),
        };
        Ok(CoseStructure {
            protected_headers,
            cwt_payload,
            signature: CoseSignature {
                bytes: sig,
                sign_structure: CoseSignStructure::Sign1,
                protected_headers_raw: ph,
                cwt_payload_raw: pl,
            },
        })
    }

    /// Checks the envelope's signature against `key`. Every failure is the same opaque
    /// error.
    pub fn verify_signature(&self, key: &PublicKey) -> (r: Result<(), CoseVerificationError>)
        ensures
            self.signature.accepted_by(*key) ==> r is Ok,
            !self.signature.accepted_by(*key) ==> r == Err::<(), _>(
                CoseVerificationError::VerificationFailed,
            ),
    {
        self.signature.verify(key)
    }
}

/// Whether `r` is what checking envelope `s` against the issuer's DID `document` gives:
/// the key that the document gives for the envelope's key id, then the signature.
pub open spec fn verified_outcome(
    s: CoseStructure,
    document: Document,
    r: Result<CwtClaims, CoseVerificationError>,
) -> bool {
    exists|k: Result<PublicKey, DecentralizedIdentifierError>|
        key_lookup(document, s.cwt_payload.issuer.absolute_key(s.protected_headers.kid@), k)
            && match k {
            Err(e) => r == Err::<CwtClaims, _>(
                CoseVerificationError::DecentralizedIdentifierResolution(e),
            ),
            Ok(key) => if s.signature.accepted_by(key) {
                r == Ok::<_, CoseVerificationError>(s.cwt_payload)
            } else {
                r == Err::<CwtClaims, _>(CoseVerificationError::VerificationFailed)
            },
        }
}

impl CoseStructure {
    /// The claims, if the envelope is signed by the key that the issuer's DID `document`
    /// gives for the envelope's key id.
    pub fn verified_payload(self, document: &Document) -> (r: Result<CwtClaims, CoseVerificationError>)
        ensures
            verified_outcome(self, *document, r),
    {
        let k = self.cwt_payload.issuer.public_key_from_document(document, &self.protected_headers.kid);
        let key = match k {
            Ok(key) => key,
            Err(e) => return Err(CoseVerificationError::DecentralizedIdentifierResolution(e)),
        };
        match self.verify_signature(&key) {
            Ok(()) => Ok(self.cwt_payload),
            Err(e) => Err(e),
        }
    }
}

} // verus!
