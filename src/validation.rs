//! Validation of the claims of a pass: its credential's format, and its validity window.
use vstd::prelude::*;

use crate::cwt::CwtClaims;
use crate::cwt::VerifiableCredential;
use crate::cwt::VerifiableCredentialModel;
use crate::did::DecentralizedIdentifier;
use crate::error::CoseVerificationError;

verus! {

/// Why the claims of a pass are not valid.
#[derive(Debug, Clone, PartialEq, Eq)]
pub enum CwtValidationError {
    /// The pass is not valid yet; holds its not-before time (Unix seconds).
    NotYetActive(i64),
    /// The pass has expired; holds its expiry time (Unix seconds).
    Expired(i64),
    /// The credential's version is not `1.0.0`; holds it.
    UnsupportedVersion(String),
    /// The credential's contexts are not the expected ones; holds them.
    InvalidContext(Vec<String>),
    /// The credential's type is not the expected one; holds it.
    InvalidType(String, String),
    /// The current time could not be read: the system clock stands before the Unix
    /// epoch, or beyond what an `i64` of seconds holds.
    ClockUnavailable,
}

/// `1.0.0`
pub open spec fn supported_version() -> Seq<char> {
    seq!['1', '.', '0', '.', '0']
}

/// `https://www.w3.org/2018/credentials/v1`
pub open spec fn mandatory_context_url() -> Seq<char> {
    "https://www.w3.org/2018/credentials/v1"@
}

/// `VerifiableCredential`
pub open spec fn mandatory_type() -> Seq<char> {
    "VerifiableCredential"@
}

/// Whether the contexts begin with the W3C base context and then `context_url`.
pub open spec fn context_ok(context: Seq<Seq<char>>, context_url: Seq<char>) -> bool {
    context.len() >= 2 && context[0] == mandatory_context_url() && context[1] == context_url
}

/// Whether `r` is what validating the format of credential `vc` gives, for a pass type
/// with the given type and context.
pub open spec fn credential_outcome(
    vc: VerifiableCredentialModel,
    credential_type: Seq<char>,
    context_url: Seq<char>,
    r: Result<(), CwtValidationError>,
) -> bool {
    if vc.version != supported_version() {
        r matches Err(CwtValidationError::UnsupportedVersion(v)) && v@ == vc.version
    } else if !context_ok(vc.context, context_url) {
        r matches Err(CwtValidationError::InvalidContext(c)) && c@.map_values(|s: String| s@)
            == vc.context
    } else if vc.type_ != (mandatory_type(), credential_type) {
        r matches Err(CwtValidationError::InvalidType(a, b)) && a@ == vc.type_.0 && b@
            == vc.type_.1
    } else {
        r is Ok
    }
}

/// Whether `r` is what validating claims `c` at time `now` (Unix seconds) gives: the
/// window first, which includes its start and excludes its end, then the credential's
/// format.
pub open spec fn claims_outcome(
    c: CwtClaims,
    now: int,
    credential_type: Seq<char>,
    context_url: Seq<char>,
    r: Result<(), CwtValidationError>,
) -> bool {
    if now < c.not_before {
        r == Err::<(), CwtValidationError>(CwtValidationError::NotYetActive(c.not_before))
    } else if c.expiry <= now {
        r == Err::<(), CwtValidationError>(CwtValidationError::Expired(c.expiry))
    } else {
        credential_outcome(c.verifiable_credential@, credential_type, context_url, r)
    }
}

fn copy_strings(v: &Vec<String>) -> (r: Vec<String>)
    ensures
        r@.map_values(|s: String| s@) == v@.map_values(|s: String| s@),
{
    let mut r: Vec<String> = Vec::new();
    let mut i: usize = 0;
    while i < v.len()
        invariant
            i <= v@.len(),
            r@.map_values(|s: String| s@) == v@.subrange(0, i as int).map_values(|s: String| s@),
        decreases v@.len() - i,
    {
        r.push(v[i].clone());
        assert(v@.subrange(0, i + 1).map_values(|s: String| s@) =~= v@.subrange(0, i as int).map_values(|s: String| s@).push(v@[i as int]@));
        assert(r@.map_values(|s: String| s@) =~= v@.subrange(0, i as int).map_values(|s: String| s@).push(v@[i as int]@));
        i = i + 1;
    }
    assert(v@.subrange(0, i as int) =~= v@);
    r
}

impl VerifiableCredential {
    /// Checks the credential's format against a pass type with the given type and
    /// context: version `1.0.0`, then the contexts, then the type.
    pub fn validate(&self, credential_type: &str, context_url: &str) -> (r: Result<(), CwtValidationError>)
        ensures
            credential_outcome(self@, credential_type@, context_url@, r),
    {
        let supported = "1.0.0".to_owned();
        proof {
            reveal_strlit("1.0.0");
            assert(supported@ =~= supported_version());
        }
        if self.version != supported {
            return Err(CwtValidationError::UnsupportedVersion(self.version.clone()));
        }
        let base = "https://www.w3.org/2018/credentials/v1".to_owned();
        let own = context_url.to_owned();
        let context_matches = self.context.len() >= 2 && self.context[0] == base && self.context[1]
            == own;
        if !context_matches {
            return Err(CwtValidationError::InvalidContext(copy_strings(&self.context)));
        }
        let verifiable = "VerifiableCredential".to_owned();
        let kind = credential_type.to_owned();
        if !(self.base_type == verifiable && self.pass_type == kind) {
            return Err(CwtValidationError::InvalidType(self.base_type.clone(), self.pass_type.clone()));
        }
        Ok(())
    }
}

impl CwtClaims {
    /// Checks the claims at time `now` (Unix seconds): that `not_before <= now < expiry`,
    /// then the credential's format.
    pub fn validate_at(&self, now: i64, credential_type: &str, context_url: &str) -> (r: Result<
        (),
        CwtValidationError,
    >)
        ensures
            claims_outcome(*self, now as int, credential_type@, context_url@, r),
    {
        if now < self.not_before {
            Err(CwtValidationError::NotYetActive(self.not_before))
        } else if self.expiry <= now {
            Err(CwtValidationError::Expired(self.expiry))
        } else {
            self.verifiable_credential.validate(credential_type, context_url)
        }
    }
}

/// Whether `issuer` is one of `trusted`.
pub open spec fn is_trusted(trusted: Seq<DecentralizedIdentifier>, issuer: DecentralizedIdentifier) -> bool {
    exists|i: int| 0 <= i < trusted.len() && (#[trigger] trusted[i]).spec_domain() == issuer.spec_domain()
}

/// Relies on std's `SystemTime::duration_since(UNIX_EPOCH)` on `SystemTime::now()`: the
/// whole seconds since the Unix epoch, or `None` where the clock stands before it.
#[verifier::external_body]
fn seconds_since_epoch() -> (r: Option<u64>) {
    std::time::SystemTime::now().duration_since(std::time::UNIX_EPOCH).ok().map(|d| d.as_secs())
}

/// The current time in Unix seconds, if the clock can be read as such.
pub(crate) fn current_timestamp() -> (r: Option<i64>) {
    match seconds_since_epoch() {
        Some(s) => if s <= i64::MAX as u64 {
            Some(s as i64)
        } else {
            None
        },
        None => None,
    }
}

impl CwtClaims {
    /// The issuer of the claims, if it is one of `trusted_issuers`.
    pub fn verify_issuer(&self, trusted_issuers: &Vec<DecentralizedIdentifier>) -> (r: Result<
        DecentralizedIdentifier,
        CoseVerificationError,
    >)
        ensures
            is_trusted(trusted_issuers@, self.issuer) ==> (r matches Ok(i) && i.spec_domain()
                == self.issuer.spec_domain()),
            !is_trusted(trusted_issuers@, self.issuer) ==> (r matches Err(
                CoseVerificationError::UntrustedIssuer(s),
            ) && s@ == self.issuer.spec_did()),
    {
        let mut i: usize = 0;
        while i < trusted_issuers.len()
            invariant
                i <= trusted_issuers@.len(),
                forall|j: int|
                    0 <= j < i ==> (#[trigger] trusted_issuers@[j]).spec_domain()
                        != self.issuer.spec_domain(),
            decreases trusted_issuers@.len() - i,
        {
            match (&trusted_issuers[i], &self.issuer) {
                (DecentralizedIdentifier::Web(a), DecentralizedIdentifier::Web(b)) => {
                    if *a == *b {
                        return Ok(DecentralizedIdentifier::Web(b.clone()));
                    }
                },
            }
            i = i + 1;
        }
        Err(CoseVerificationError::UntrustedIssuer(self.issuer.did()))
    }

    /// Checks the claims at the current time: that `not_before <= now < expiry`, then the
    /// credential's format. Where the clock cannot be read, says so.
    pub fn validate(&self, credential_type: &str, context_url: &str) -> (r: Result<(), CwtValidationError>)
        ensures
            r == Err::<(), _>(CwtValidationError::ClockUnavailable) || exists|now: i64|
                claims_outcome(*self, now as int, credential_type@, context_url@, r),
    {
        match current_timestamp() {
            Some(now) => self.validate_at(now, credential_type, context_url),
            None => Err(CwtValidationError::ClockUnavailable),
        }
    }

    /// The credential subject, as the exact CBOR bytes of that item, if the claims are
    /// valid at time `now` (Unix seconds).
    pub fn validated_credential_subject_at(self, now: i64, credential_type: &str, context_url: &str) -> (r: Result<Vec<u8>, CwtValidationError>)
        ensures
            exists|v: Result<(), CwtValidationError>|
                claims_outcome(self, now as int, credential_type@, context_url@, v) && match v {
                    Ok(_) => r matches Ok(s) && s@ == self.verifiable_credential.credential_subject@,
                    Err(e) => r == Err::<Vec<u8>, _>(e),
                },
    {
        let v = self.validate_at(now, credential_type, context_url);
        match v {
            Ok(_) => Ok(self.verifiable_credential.credential_subject),
            Err(e) => Err(e),
        }
    }

    /// The credential subject, as the exact CBOR bytes of that item, if the claims are
    /// valid at the current time. Where the clock cannot be read, says so.
    pub fn validated_credential_subject(self, credential_type: &str, context_url: &str) -> (r: Result<Vec<u8>, CwtValidationError>)
        ensures
            r == Err::<Vec<u8>, _>(CwtValidationError::ClockUnavailable) || exists|now: i64, v: Result<(), CwtValidationError>|
                claims_outcome(self, now as int, credential_type@, context_url@, v) && match v {
                    Ok(_) => r matches Ok(s) && s@ == self.verifiable_credential.credential_subject@,
                    Err(e) => r == Err::<Vec<u8>, _>(e),
                },
    {
        match current_timestamp() {
            Some(now) => self.validated_credential_subject_at(now, credential_type, context_url),
            None => Err(CwtValidationError::ClockUnavailable),
        }
    }
}

/// At its window's edges a pass is invalid (expired) from its expiry time on, whatever
/// its credential; and one with a well-formed credential is valid from its not-before
/// time on.
pub proof fn lemma_window_boundaries(
    c: CwtClaims,
    credential_type: Seq<char>,
    context_url: Seq<char>,
    r: Result<(), CwtValidationError>,
)
    ensures
        credential_outcome(c.verifiable_credential@, credential_type, context_url, Ok(()))
            && c.not_before < c.expiry ==> claims_outcome(c, c.not_before as int, credential_type, context_url, Ok(())),
        c.not_before <= c.expiry ==> (claims_outcome(c, c.expiry as int, credential_type, context_url, r)
            <==> r == Err::<(), CwtValidationError>(CwtValidationError::Expired(c.expiry))),
{
}

} // verus!
