//! Verifying a pass barcode end to end. Resolving the issuer's DID document is network
//! work that the caller does between the two steps: `decode_pass_uri` decodes the
//! barcode and checks that the issuer is trusted, so that only trusted issuers are ever
//! resolved; `verified_credential_subject` then takes what the resolver returned, checks
//! the signature and validates the claims.
use vstd::prelude::*;
use vstd::string::StringSliceAdditionalSpecFns;

use crate::barcode::barcode;
use crate::barcode::QrBarcode;
use crate::cose::cose_result;
use crate::cose::verified_outcome;
use crate::cose::CoseStructure;
use crate::did::document_result;
use crate::did::resolved_document;
use crate::did::DecentralizedIdentifier;
use crate::did::Document;
use crate::error::CoseVerificationError;
use crate::error::NzcpError;
use crate::validation::claims_outcome;
use crate::validation::current_timestamp;
use crate::validation::is_trusted;
use crate::validation::CwtValidationError;

verus! {

/// A kind of pass: what its credential's `type[1]` and `@context[1]` must be. The
/// credential subject itself is handed out as CBOR bytes for the pass type to decode.
pub trait Pass {
    /// The type of the pass, given in `vc.type[1]` (e.g. `PublicCovidPass`).
    fn credential_type() -> &'static str;

    /// The context of the pass, given in `vc.@context[1]`.
    fn context_url() -> &'static str;
}

/// Why the subject of a public COVID pass could not be read.
#[derive(Debug, Clone, Copy, PartialEq, Eq, Structural)]
pub enum PublicCovidPassError {
    /// The date of birth is not a valid `YYYY-MM-DD` date.
    InvalidDateOfBirth,
}

impl PublicCovidPassError {
    /// The error's description.
    pub fn message(&self) -> (r: String)
        ensures
            r@ == "The given date of birth was invalid."@,
    {
        match self {
            PublicCovidPassError::InvalidDateOfBirth => "The given date of birth was invalid.".to_owned(),
        }
    }
}

/// The Ministry of Health's issuer, trusted by default.
pub fn ministry_of_health_issuer() -> (r: DecentralizedIdentifier)
    ensures
        r.spec_domain() == "nzcp.identity.health.nz"@,
{
    DecentralizedIdentifier::Web("nzcp.identity.health.nz".to_owned())
}

/// The issuers trusted by default: the Ministry of Health's alone.
pub fn default_trusted_issuers() -> (r: Vec<DecentralizedIdentifier>)
    ensures
        r@.len() == 1,
        r@[0].spec_domain() == "nzcp.identity.health.nz"@,
{
    let mut r: Vec<DecentralizedIdentifier> = Vec::new();
    r.push(ministry_of_health_issuer());
    r
}

/// Whether `r` is what decoding barcode `uri` gives when `trusted` are the trusted
/// issuers: the barcode, then the envelope, then the issuer's trust.
pub open spec fn decoded_outcome(
    uri: Seq<u8>,
    trusted: Seq<DecentralizedIdentifier>,
    r: Result<CoseStructure, NzcpError>,
) -> bool {
    match barcode(uri) {
        Err(e) => r == Err::<CoseStructure, _>(NzcpError::QrBarcode(e)),
        Ok(bytes) => exists|d: Result<CoseStructure, crate::error::PayloadError>|
            cose_result(bytes, d) && match d {
                Err(e) => r == Err::<CoseStructure, _>(NzcpError::InvalidPayload(e)),
                Ok(s) => if is_trusted(trusted, s.cwt_payload.issuer) {
                    r == Ok::<_, NzcpError>(s)
                } else {
                    r matches Err(
                        NzcpError::InvalidSignature(CoseVerificationError::UntrustedIssuer(i)),
                    ) && i@ == s.cwt_payload.issuer.spec_did()
                },
            },
    }
}

/// Decodes a pass barcode and checks that its issuer is one of `trusted_issuers`. What
/// comes back is the envelope whose issuer is to be resolved.
pub fn decode_pass_uri(uri: &str, trusted_issuers: &Vec<DecentralizedIdentifier>) -> (r: Result<
    CoseStructure,
    NzcpError,
>)
    ensures
        decoded_outcome(uri.spec_bytes(), trusted_issuers@, r),
        r matches Ok(s) ==> is_trusted(trusted_issuers@, s.cwt_payload.issuer),
{
    let barcode = match QrBarcode::parse(uri) {
        Ok(b) => b,
        Err(e) => return Err(NzcpError::QrBarcode(e)),
    };
    let d = CoseStructure::decode(barcode.0.as_slice());
    let cose = match d {
        Ok(c) => c,
        Err(e) => return Err(NzcpError::InvalidPayload(e)),
    };
    match cose.cwt_payload.verify_issuer(trusted_issuers) {
        Ok(_) => Ok(cose),
        Err(e) => Err(NzcpError::InvalidSignature(e)),
    }
}

/// Whether `r` is what checking envelope `cose` gives, at time `now` (Unix seconds),
/// after the issuer's resolver returned `error` and `document`: the document, then the
/// key and signature, then the claims.
pub open spec fn pass_outcome(
    cose: CoseStructure,
    error: Option<String>,
    document: Option<Document>,
    now: int,
    credential_type: Seq<char>,
    context_url: Seq<char>,
    r: Result<Vec<u8>, NzcpError>,
) -> bool {
    match document_result(error, document) {
        Err(e) => r == Err::<Vec<u8>, _>(
            NzcpError::InvalidSignature(CoseVerificationError::DecentralizedIdentifierResolution(e)),
        ),
        Ok(doc) => exists|v: Result<crate::cwt::CwtClaims, CoseVerificationError>|
            verified_outcome(cose, doc, v) && match v {
                Err(e) => r == Err::<Vec<u8>, _>(NzcpError::InvalidSignature(e)),
                Ok(claims) => exists|w: Result<(), crate::validation::CwtValidationError>|
                    claims_outcome(claims, now, credential_type, context_url, w) && match w {
                        Ok(_) => r matches Ok(s) && s@
                            == claims.verifiable_credential.credential_subject@,
                        Err(e) => r == Err::<Vec<u8>, _>(NzcpError::InvalidCWT(e)),
                    },
            },
    }
}

/// Checks a decoded envelope at time `now` (Unix seconds), given what the resolver of
/// its issuer returned: an error message, or the DID document. On success, the credential
/// subject as the exact CBOR bytes of that item.
pub fn verified_credential_subject_at(
    cose: CoseStructure,
    error: Option<String>,
    document: Option<Document>,
    now: i64,
    credential_type: &str,
    context_url: &str,
) -> (r: Result<Vec<u8>, NzcpError>)
    ensures
        pass_outcome(cose, error, document, now as int, credential_type@, context_url@, r),
{
    let doc = match resolved_document(error, document) {
        Ok(d) => d,
        Err(e) => return Err(
            NzcpError::InvalidSignature(CoseVerificationError::DecentralizedIdentifierResolution(e)),
        ),
    };
    let claims = match cose.verified_payload(&doc) {
        Ok(c) => c,
        Err(e) => return Err(NzcpError::InvalidSignature(e)),
    };
    match claims.validated_credential_subject_at(now, credential_type, context_url) {
        Ok(s) => Ok(s),
        Err(e) => Err(NzcpError::InvalidCWT(e)),
    }
}

/// Checks a decoded envelope at the current time, given what the resolver of its issuer
/// returned. On success, the credential subject as the exact CBOR bytes of that item.
/// Where the clock cannot be read, says so before any check.
pub fn verified_credential_subject(
    cose: CoseStructure,
    error: Option<String>,
    document: Option<Document>,
    credential_type: &str,
    context_url: &str,
) -> (r: Result<Vec<u8>, NzcpError>)
    ensures
        r == Err::<Vec<u8>, _>(NzcpError::InvalidCWT(CwtValidationError::ClockUnavailable))
            || exists|now: i64|
            pass_outcome(cose, error, document, now as int, credential_type@, context_url@, r),
{
    let now = match current_timestamp() {
        Some(t) => t,
        None => return Err(NzcpError::InvalidCWT(CwtValidationError::ClockUnavailable)),
    };
    let r = verified_credential_subject_at(cose, error, document, now, credential_type, context_url);
    assert(pass_outcome(cose, error, document, now as int, credential_type@, context_url@, r));
    r
}

} // verus!
