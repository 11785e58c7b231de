//! The CWT claims carried as the envelope's payload, and the verifiable credential
//! inside them.
use vstd::prelude::*;

use crate::cbor::close;
use crate::cbor::container;
use crate::cbor::head;
use crate::cbor::read_close;
use crate::cbor::read_container;
use crate::cbor::int_item;
use crate::cbor::read_head;
use crate::cbor::read_int;
use crate::cbor::read_string_copy;
use crate::cbor::read_text;
use crate::cbor::read_utf8;
use crate::cbor::skip;
use crate::cbor::skip_item;
use crate::cbor::string_item;
use crate::cbor::text_item;
use crate::cbor::utf8_item;
use crate::cbor::MAJOR_ARRAY;
use crate::cbor::MAJOR_BYTES;
use crate::cbor::MAJOR_MAP;
use crate::cbor::MAJOR_NEGATIVE;
use crate::cbor::MAJOR_TEXT;
use crate::cbor::MAJOR_UNSIGNED;
use crate::cbor::MAX_DEPTH;
use crate::did::did_web_prefix;
use crate::did::DecentralizedIdentifier;
use crate::error::Field;
use crate::error::PayloadError;

verus! {

/// The verifiable credential of the `vc` claim.
#[derive(Debug, Clone, PartialEq, Eq)]
pub struct VerifiableCredential {
    /// The JSON-LD contexts: the W3C base context, then the pass type's own.
    pub context: Vec<String>,
    /// The first entry of `type`: `VerifiableCredential`.
    pub base_type: String,
    /// The second entry of `type`: the pass type.
    pub pass_type: String,
    /// The version of the credential format; must be `1.0.0`.
    pub version: String,
    /// The credential subject, as the exact CBOR bytes of that item.
    pub credential_subject: Vec<u8>,
}

/// What a verifiable credential holds.
pub struct VerifiableCredentialModel {
    pub context: Seq<Seq<char>>,
    pub type_: (Seq<char>, Seq<char>),
    pub version: Seq<char>,
    pub credential_subject: Seq<u8>,
}

impl View for VerifiableCredential {
    type V = VerifiableCredentialModel;

    open spec fn view(&self) -> VerifiableCredentialModel {
        VerifiableCredentialModel {
            context: self.context@.map_values(|s: String| s@),
            type_: (self.base_type@, self.pass_type@),
            version: self.version@,
            credential_subject: self.credential_subject@,
        }
    }
}

/// The claims of a pass.
#[derive(Debug, Clone, PartialEq, Eq)]
pub struct CwtClaims {
    /// The token id: the 16 bytes of a UUID.
    pub cwt_token_id: Vec<u8>,
    pub issuer: DecentralizedIdentifier,
    /// Seconds since the Unix epoch before which the pass is not valid.
    pub not_before: i64,
    /// Seconds since the Unix epoch from which the pass is no longer valid.
    pub expiry: i64,
    pub verifiable_credential: VerifiableCredential,
}

/// The claims are the envelope's payload.
pub type CwtPayload = CwtClaims;

/// What the claims of a pass hold.
pub struct CwtClaimsModel {
    pub cwt_token_id: Seq<u8>,
    pub issuer: Seq<char>,
    pub not_before: int,
    pub expiry: int,
    pub verifiable_credential: VerifiableCredentialModel,
}

impl View for CwtClaims {
    type V = CwtClaimsModel;

    open spec fn view(&self) -> CwtClaimsModel {
        CwtClaimsModel {
            cwt_token_id: self.cwt_token_id@,
            issuer: self.issuer.spec_domain(),
            not_before: self.not_before as int,
            expiry: self.expiry as int,
            verifiable_credential: self.verifiable_credential@,
        }
    }
}

/// The claim key of the token id.
pub const CWT_TOKEN_CLAIM_KEY: i128 = 7;

/// The claim key of the issuer.
pub const ISSUER_CLAIM_KEY: i128 = 1;

/// The claim key of the not-before time.
pub const NOT_BEFORE_CLAIM_KEY: i128 = 5;

/// The claim key of the expiry time.
pub const EXPIRY_CLAIM_KEY: i128 = 4;

/// The length of a UUID in bytes.
pub const UUID_LEN: usize = 16;

/// Reads `n` strings (text, or bytes holding UTF-8) from `p`, appending their
/// characters to `acc`: the list and where the items end.
pub open spec fn text_list(b: Seq<u8>, p: int, n: nat, acc: Seq<Seq<char>>) -> Option<
    (Seq<Seq<char>>, int),
>
    decreases n,
{
    if n == 0 {
        Some((acc, p))
    } else {
        match utf8_item(b, p) {
            None => None,
            Some((t, q)) => text_list(b, q, (n - 1) as nat, acc.push(t)),
        }
    }
}

/// The fields of a credential read so far.
pub struct CredentialSlots {
    pub context: Option<Seq<Seq<char>>>,
    pub type_: Option<(Seq<char>, Seq<char>)>,
    pub version: Option<Seq<char>>,
    pub credential_subject: Option<Seq<u8>>,
}

/// No field read yet.
pub open spec fn no_credential_slots() -> CredentialSlots {
    CredentialSlots { context: None, type_: None, version: None, credential_subject: None }
}

/// Reads the `n` entries of a credential map from `p` into `s`. Keys must be text, and
/// string values may be text or bytes holding UTF-8;
/// unknown keys are skipped with their values; a field given twice is refused.
pub open spec fn credential_entries(b: Seq<u8>, p: int, n: nat, s: CredentialSlots) -> Result<
    (CredentialSlots, int),
    PayloadError,
>
    decreases n,
{
    if n == 0 {
        Ok((s, p))
    } else {
        match text_item(b, p) {
            None => Err(PayloadError::Malformed),
            Some((k, q)) => if k == "@context"@ {
                if s.context is Some {
                    Err(PayloadError::DuplicateField(Field::Context))
                } else {
                    match container(b, q, MAJOR_ARRAY) {
                        Some((count, q2, indefinite)) => match text_list(b, q2, count, seq![]) {
                            None => Err(PayloadError::Malformed),
                            Some((c, e)) => match close(b, e, indefinite) {
                                None => Err(PayloadError::Malformed),
                                Some(e2) => credential_entries(
                                    b,
                                    e2,
                                    (n - 1) as nat,
                                    CredentialSlots { context: Some(c), ..s },
                                ),
                            },
                        },
                        None => Err(PayloadError::Malformed),
                    }
                }
            } else if k == "type"@ {
                if s.type_ is Some {
                    Err(PayloadError::DuplicateField(Field::Type))
                } else {
                    match container(b, q, MAJOR_ARRAY) {
                        Some((count, q2, indefinite)) => if count != 2 {
                            Err(PayloadError::Malformed)
                        } else {
                            match utf8_item(b, q2) {
                                None => Err(PayloadError::Malformed),
                                Some((t0, q3)) => match utf8_item(b, q3) {
                                    None => Err(PayloadError::Malformed),
                                    Some((t1, e)) => match close(b, e, indefinite) {
                                        None => Err(PayloadError::Malformed),
                                        Some(e2) => credential_entries(
                                            b,
                                            e2,
                                            (n - 1) as nat,
                                            CredentialSlots { type_: Some((t0, t1)), ..s },
                                        ),
                                    },
                                },
                            }
                        },
                        None => Err(PayloadError::Malformed),
                    }
                }
            } else if k == "version"@ {
                if s.version is Some {
                    Err(PayloadError::DuplicateField(Field::Version))
                } else {
                    match utf8_item(b, q) {
                        None => Err(PayloadError::Malformed),
                        Some((v, e)) => credential_entries(
                            b,
                            e,
                            (n - 1) as nat,
                            CredentialSlots { version: Some(v), ..s },
                        ),
                    }
                }
            } else if k == "credentialSubject"@ {
                if s.credential_subject is Some {
                    Err(PayloadError::DuplicateField(Field::CredentialSubject))
                } else {
                    match skip(b, q, MAX_DEPTH as nat) {
                        None => Err(PayloadError::Malformed),
                        Some(e) => credential_entries(
                            b,
                            e,
                            (n - 1) as nat,
                            CredentialSlots { credential_subject: Some(b.subrange(q, e)), ..s },
                        ),
                    }
                }
            } else {
                match skip(b, q, MAX_DEPTH as nat) {
                    None => Err(PayloadError::Malformed),
                    Some(e) => credential_entries(b, e, (n - 1) as nat, s),
                }
            },
        }
    }
}

/// The credential map at `p` and where it ends, or why it is refused. All four fields
/// are mandatory. The map and its arrays may have definite or indefinite length.
pub open spec fn credential_item(b: Seq<u8>, p: int) -> Result<
    (VerifiableCredentialModel, int),
    PayloadError,
> {
    match container(b, p, MAJOR_MAP) {
        None => Err(PayloadError::Malformed),
        Some((n, q, indefinite)) => {
            match credential_entries(b, q, n, no_credential_slots()) {
                Err(e) => Err(e),
                Ok((s, e)) => if close(b, e, indefinite) is None {
                    Err(PayloadError::Malformed)
                } else if s.context is None {
                    Err(PayloadError::MissingField(Field::Context))
                } else if s.type_ is None {
                    Err(PayloadError::MissingField(Field::Type))
                } else if s.version is None {
                    Err(PayloadError::MissingField(Field::Version))
                } else if s.credential_subject is None {
                    Err(PayloadError::MissingField(Field::CredentialSubject))
                } else {
                    Ok(
                        (
                            VerifiableCredentialModel {
                                context: s.context.unwrap(),
                                type_: s.type_.unwrap(),
                                version: s.version.unwrap(),
                                credential_subject: s.credential_subject.unwrap(),
                            },
                            close(b, e, indefinite).unwrap(),
                        ),
                    )
                },
            }
        },
    }
}

/// The characters of a list of strings.
pub open spec fn strings_view(v: Seq<String>) -> Seq<Seq<char>> {
    v.map_values(|s: String| s@)
}

/// Reads `n` strings (text, or bytes holding UTF-8) from `p`: the strings and where
/// they end.
pub fn read_text_list(b: &[u8], p: usize, n: u64) -> (r: Option<(Vec<String>, usize)>)
    requires
        p <= b@.len(),
    ensures
        r is Some <==> text_list(b@, p as int, n as nat, seq![]) is Some,
        r matches Some((v, e)) ==> text_list(b@, p as int, n as nat, seq![]) == Some(
            (strings_view(v@), e as int),
        ) && p <= e <= b@.len(),
{
    let mut v: Vec<String> = Vec::new();
    assert(strings_view(v@) =~= seq![]);
    let mut pos = p;
    let mut i: u64 = 0;
    while i < n
        invariant
            i <= n,
            p <= pos <= b@.len(),
            text_list(b@, p as int, n as nat, seq![]) == text_list(
                b@,
                pos as int,
                (n - i) as nat,
                strings_view(v@),
            ),
        decreases n - i,
    {
        match read_utf8(b, pos) {
            Some((t, next)) => {
                proof {
                    assert(strings_view(v@.push(t)) =~= strings_view(v@).push(t@));
                }
                v.push(t);
                pos = next;
            },
            None => return None,
        }
        i = i + 1;
    }
    Some((v, pos))
}

/// The fields of a credential read so far, as held by the reader.
pub open spec fn credential_slots_view(
    context: Option<Vec<String>>,
    type_: Option<(String, String)>,
    version: Option<String>,
    credential_subject: Option<Vec<u8>>,
) -> CredentialSlots {
    CredentialSlots {
        context: match context {
            Some(c) => Some(strings_view(c@)),
            None => None,
        },
        type_: match type_ {
            Some((a, t)) => Some((a@, t@)),
            None => None,
        },
        version: match version {
            Some(v) => Some(v@),
            None => None,
        },
        credential_subject: match credential_subject {
            Some(s) => Some(s@),
            None => None,
        },
    }
}

/// Reads the credential map at `p`: the credential and where it ends.
pub fn read_credential(b: &[u8], p: usize) -> (r: Result<(VerifiableCredential, usize), PayloadError>)
    ensures
        match credential_item(b@, p as int) {
            Ok((vc, e)) => r matches Ok((v, end)) && v@ == vc && end == e && p < end <= b@.len(),
            Err(e) => r == Err::<(VerifiableCredential, usize), _>(e),
        },
{
    let (n, q, indefinite) = match read_container(b, p, MAJOR_MAP) {
        Some(h) => h,
        None => return Err(PayloadError::Malformed),
    };
    let mut context: Option<Vec<String>> = None;
    let mut type_: Option<(String, String)> = None;
    let mut version: Option<String> = None;
    let mut subject: Option<Vec<u8>> = None;
    let mut pos = q;
    let mut i: u64 = 0;
    while i < n
        invariant
            i <= n,
            p < q <= pos <= b@.len(),
            container(b@, p as int, MAJOR_MAP) == Some((n as nat, q as int, indefinite)),
            credential_entries(b@, q as int, n as nat, no_credential_slots()) == credential_entries(
                b@,
                pos as int,
                (n - i) as nat,
                credential_slots_view(context, type_, version, subject),
            ),
        decreases n - i,
    {
        let ghost slots = credential_slots_view(context, type_, version, subject);
        let (k, kq) = match read_text(b, pos) {
            Some(t) => t,
            None => return Err(PayloadError::Malformed),
        };
        let context_key = "@context".to_owned();
        let type_key = "type".to_owned();
        let version_key = "version".to_owned();
        let subject_key = "credentialSubject".to_owned();
        if k == context_key {
            if context.is_some() {
                return Err(PayloadError::DuplicateField(Field::Context));
            }
            let (count, aq, array_indefinite) = match read_container(b, kq, MAJOR_ARRAY) {
                Some(h) => h,
                None => return Err(PayloadError::Malformed),
            };
            match read_text_list(b, aq, count) {
                Some((c, e)) => match read_close(b, e, array_indefinite) {
                    Some(e2) => {
                        context = Some(c);
                        pos = e2;
                    },
                    None => return Err(PayloadError::Malformed),
                },
                None => return Err(PayloadError::Malformed),
            }
        } else if k == type_key {
            if type_.is_some() {
                return Err(PayloadError::DuplicateField(Field::Type));
            }
            let (count, aq, array_indefinite) = match read_container(b, kq, MAJOR_ARRAY) {
                Some(h) => h,
                None => return Err(PayloadError::Malformed),
            };
            if count != 2 {
                return Err(PayloadError::Malformed);
            }
            let (t0, q3) = match read_utf8(b, aq) {
                Some(t) => t,
                None => return Err(PayloadError::Malformed),
            };
            let (t1, e) = match read_utf8(b, q3) {
                Some(t) => t,
                None => return Err(PayloadError::Malformed),
            };
            match read_close(b, e, array_indefinite) {
                Some(e2) => {
                    type_ = Some((t0, t1));
                    pos = e2;
                },
                None => return Err(PayloadError::Malformed),
            }
        } else if k == version_key {
            if version.is_some() {
                return Err(PayloadError::DuplicateField(Field::Version));
            }
            match read_utf8(b, kq) {
                Some((v, e)) => {
                    version = Some(v);
                    pos = e;
                },
                None => return Err(PayloadError::Malformed),
            }
        } else if k == subject_key {
            if subject.is_some() {
                return Err(PayloadError::DuplicateField(Field::CredentialSubject));
            }
            match skip_item(b, kq, MAX_DEPTH) {
                Some(e) => {
                    subject = Some(vstd::slice::slice_to_vec(vstd::slice::slice_subrange(b, kq, e)));
                    pos = e;
                },
                None => return Err(PayloadError::Malformed),
            }
        } else {
            match skip_item(b, kq, MAX_DEPTH) {
                Some(e) => {
                    pos = e;
                },
                None => return Err(PayloadError::Malformed),
            }
        }
        i = i + 1;
    }
    let end = match read_close(b, pos, indefinite) {
        Some(e) => e,
        None => return Err(PayloadError::Malformed),
    };
    let context = match context {
        Some(c) => c,
        None => return Err(PayloadError::MissingField(Field::Context)),
    };
    let (base_type, pass_type) = match type_ {
        Some(t) => t,
        None => return Err(PayloadError::MissingField(Field::Type)),
    };
    let version = match version {
        Some(v) => v,
        None => return Err(PayloadError::MissingField(Field::Version)),
    };
    let credential_subject = match subject {
        Some(s) => s,
        None => return Err(PayloadError::MissingField(Field::CredentialSubject)),
    };
    Ok((VerifiableCredential { context, base_type, pass_type, version, credential_subject }, end))
}

/// The claims read so far.
pub struct ClaimSlots {
    pub cwt_token_id: Option<Seq<u8>>,
    pub issuer: Option<Seq<char>>,
    pub not_before: Option<int>,
    pub expiry: Option<int>,
    pub verifiable_credential: Option<VerifiableCredentialModel>,
}

/// No claim read yet.
pub open spec fn no_claim_slots() -> ClaimSlots {
    ClaimSlots {
        cwt_token_id: None,
        issuer: None,
        not_before: None,
        expiry: None,
        verifiable_credential: None,
    }
}

/// Whether `v` fits an `i64`.
pub open spec fn fits_i64(v: int) -> bool {
    i64::MIN <= v <= i64::MAX
}

/// Reads the `n` entries of the claims map from `p` into `s`. The token id is a
/// 16-byte string, the issuer a `did:web:` identifier (kept without that prefix), the
/// times integers that fit an `i64`; any other key is refused, and a later entry
/// overrides an earlier one.
pub open spec fn claim_entries(b: Seq<u8>, p: int, n: nat, s: ClaimSlots) -> Result<
    (ClaimSlots, int),
    PayloadError,
>
    decreases n,
{
    if n == 0 {
        Ok((s, p))
    } else {
        match head(b, p) {
            None => Err(PayloadError::Malformed),
            Some((m, a, q)) => if m == MAJOR_UNSIGNED || m == MAJOR_NEGATIVE {
                let key: int = if m == MAJOR_UNSIGNED {
                    a as int
                } else {
                    -1 - a as int
                };
                if key == CWT_TOKEN_CLAIM_KEY {
                    match string_item(b, q, MAJOR_BYTES) {
                        None => Err(PayloadError::Malformed),
                        Some((t, e)) => if t.len() != UUID_LEN {
                            Err(PayloadError::Malformed)
                        } else {
                            claim_entries(b, e, (n - 1) as nat, ClaimSlots { cwt_token_id: Some(t), ..s })
                        },
                    }
                } else if key == ISSUER_CLAIM_KEY {
                    match text_item(b, q) {
                        None => Err(PayloadError::Malformed),
                        Some((t, e)) => if !(t.len() >= 8 && t.subrange(0, 8) == did_web_prefix()) {
                            Err(PayloadError::UnsupportedDidMethod)
                        } else {
                            claim_entries(
                                b,
                                e,
                                (n - 1) as nat,
                                ClaimSlots { issuer: Some(t.subrange(8, t.len() as int)), ..s },
                            )
                        },
                    }
                } else if key == NOT_BEFORE_CLAIM_KEY || key == EXPIRY_CLAIM_KEY {
                    match int_item(b, q) {
                        None => Err(PayloadError::Malformed),
                        Some((v, e)) => if !fits_i64(v) {
                            Err(PayloadError::Malformed)
                        } else if key == NOT_BEFORE_CLAIM_KEY {
                            claim_entries(b, e, (n - 1) as nat, ClaimSlots { not_before: Some(v), ..s })
                        } else {
                            claim_entries(b, e, (n - 1) as nat, ClaimSlots { expiry: Some(v), ..s })
                        },
                    }
                } else {
                    Err(PayloadError::UnknownIntegerField(key as i128))
                }
            } else if m == MAJOR_TEXT {
                match text_item(b, p) {
                    None => Err(PayloadError::Malformed),
                    Some((k, q2)) => if k == "vc"@ {
                        match credential_item(b, q2) {
                            Err(e) => Err(e),
                            Ok((vc, e)) => claim_entries(
                                b,
                                e,
                                (n - 1) as nat,
                                ClaimSlots { verifiable_credential: Some(vc), ..s },
                            ),
                        }
                    } else {
                        Err(PayloadError::UnknownField)
                    },
                }
            } else {
                match skip(b, p, MAX_DEPTH as nat) {
                    None => Err(PayloadError::Malformed),
                    Some(_) => Err(PayloadError::UnknownField),
                }
            },
        }
    }
}

/// The claims that the payload bytes `b` hold, or why they are refused. All five claims
/// are mandatory, and nothing may follow the map, which may have definite or indefinite
/// length.
pub open spec fn claims(b: Seq<u8>) -> Result<CwtClaimsModel, PayloadError> {
    match container(b, 0, MAJOR_MAP) {
        None => Err(PayloadError::Malformed),
        Some((n, q, indefinite)) => {
            match claim_entries(b, q, n, no_claim_slots()) {
                Err(e) => Err(e),
                Ok((s, e)) => if close(b, e, indefinite) is None {
                    Err(PayloadError::Malformed)
                } else if s.cwt_token_id is None {
                    Err(PayloadError::MissingField(Field::CwtTokenId))
                } else if s.issuer is None {
                    Err(PayloadError::MissingField(Field::Issuer))
                } else if s.not_before is None {
                    Err(PayloadError::MissingField(Field::NotBefore))
                } else if s.expiry is None {
                    Err(PayloadError::MissingField(Field::Expiry))
                } else if s.verifiable_credential is None {
                    Err(PayloadError::MissingField(Field::VerifiableCredential))
                } else if close(b, e, indefinite) != Some(b.len() as int) {
                    Err(PayloadError::Malformed)
                } else {
                    Ok(
                        CwtClaimsModel {
                            cwt_token_id: s.cwt_token_id.unwrap(),
                            issuer: s.issuer.unwrap(),
                            not_before: s.not_before.unwrap(),
                            expiry: s.expiry.unwrap(),
                            verifiable_credential: s.verifiable_credential.unwrap(),
                        },
                    )
                },
            }
        },
    }
}

/// The claims read so far, as held by the reader.
pub open spec fn claim_slots_view(
    token: Option<Vec<u8>>,
    issuer: Option<DecentralizedIdentifier>,
    not_before: Option<i64>,
    expiry: Option<i64>,
    vc: Option<VerifiableCredential>,
) -> ClaimSlots {
    ClaimSlots {
        cwt_token_id: match token {
            Some(t) => Some(t@),
            None => None,
        },
        issuer: match issuer {
            Some(i) => Some(i.spec_domain()),
            None => None,
        },
        not_before: match not_before {
            Some(v) => Some(v as int),
            None => None,
        },
        expiry: match expiry {
            Some(v) => Some(v as int),
            None => None,
        },
        verifiable_credential: match vc {
            Some(v) => Some(v@),
            None => None,
        },
    }
}

impl CwtClaims {
    /// Decodes the claims from the payload bytes.
    #[verifier::rlimit(60)]
    pub fn decode(b: &[u8]) -> (r: Result<CwtClaims, PayloadError>)
        ensures
            match claims(b@) {
                Ok(c) => r matches Ok(x) && x@ == c,
                Err(e) => r == Err::<CwtClaims, _>(e),
            },
    {
        let (n, q, indefinite) = match read_container(b, 0, MAJOR_MAP) {
            Some(h) => h,
            None => return Err(PayloadError::Malformed),
        };
        let mut token: Option<Vec<u8>> = None;
        let mut issuer: Option<DecentralizedIdentifier> = None;
        let mut not_before: Option<i64> = None;
        let mut expiry: Option<i64> = None;
        let mut vc: Option<VerifiableCredential> = None;
        let mut pos = q;
        let mut i: u64 = 0;
        while i < n
            invariant
                i <= n,
                q <= pos <= b@.len(),
                container(b@, 0, MAJOR_MAP) == Some((n as nat, q as int, indefinite)),
                claim_entries(b@, q as int, n as nat, no_claim_slots()) == claim_entries(
                    b@,
                    pos as int,
                    (n - i) as nat,
                    claim_slots_view(token, issuer, not_before, expiry, vc),
                ),
            decreases n - i,
        {
            let (km, a, kq) = match read_head(b, pos) {
                Some(h) => h,
                None => return Err(PayloadError::Malformed),
            };
            if km == MAJOR_UNSIGNED || km == MAJOR_NEGATIVE {
                let key: i128 = if km == MAJOR_UNSIGNED {
                    a as i128
                } else {
                    -1 - a as i128
                };
                if key == CWT_TOKEN_CLAIM_KEY {
                    match read_string_copy(b, kq, MAJOR_BYTES) {
                        Some((t, e)) => {
                            if t.len() != UUID_LEN {
                                return Err(PayloadError::Malformed);
                            }
                            token = Some(t);
                            pos = e;
                        },
                        None => return Err(PayloadError::Malformed),
                    }
                } else if key == ISSUER_CLAIM_KEY {
                    match read_text(b, kq) {
                        Some((t, e)) => {
                            match DecentralizedIdentifier::from_did(&t) {
                                Some(did) => {
                                    assert(did.spec_domain() =~= t@.subrange(8, t@.len() as int)) by {
                                        assert(did_web_prefix() + did.spec_domain() == t@);
                                        assert((did_web_prefix() + did.spec_domain()).subrange(8, t@.len() as int) =~= did.spec_domain());
                                    }
                                    issuer = Some(did);
                                },
                                None => return Err(PayloadError::UnsupportedDidMethod),
                            }
                            pos = e;
                        },
                        None => return Err(PayloadError::Malformed),
                    }
                } else if key == NOT_BEFORE_CLAIM_KEY || key == EXPIRY_CLAIM_KEY {
                    match read_int(b, kq) {
                        Some((v, e)) => {
                            if v < i64::MIN as i128 || v > i64::MAX as i128 {
                                return Err(PayloadError::Malformed);
                            }
                            if key == NOT_BEFORE_CLAIM_KEY {
                                not_before = Some(v as i64);
                            } else {
                                expiry = Some(v as i64);
                            }
                            pos = e;
                        },
                        None => return Err(PayloadError::Malformed),
                    }
                } else {
                    return Err(PayloadError::UnknownIntegerField(key));
                }
            } else if km == MAJOR_TEXT {
                let (k, q2) = match read_text(b, pos) {
                    Some(t) => t,
                    None => return Err(PayloadError::Malformed),
                };
                let vc_key = "vc".to_owned();
                if k != vc_key {
                    return Err(PayloadError::UnknownField);
                }
                match read_credential(b, q2) {
                    Ok((v, e)) => {
                        vc = Some(v);
                        pos = e;
                    },
                    Err(e) => return Err(e),
                }
            } else {
                match skip_item(b, pos, MAX_DEPTH) {
                    Some(_) => return Err(PayloadError::UnknownField),
                    None => return Err(PayloadError::Malformed),
                }
            }
            i = i + 1;
        }
        let end = match read_close(b, pos, indefinite) {
            Some(e) => e,
            None => return Err(PayloadError::Malformed),
        };
        let cwt_token_id = match token {
            Some(t) => t,
            None => return Err(PayloadError::MissingField(Field::CwtTokenId)),
        };
        let issuer = match issuer {
            Some(v) => v,
            None => return Err(PayloadError::MissingField(Field::Issuer)),
        };
        let not_before = match not_before {
            Some(v) => v,
            None => return Err(PayloadError::MissingField(Field::NotBefore)),
        };
        let expiry = match expiry {
            Some(v) => v,
            None => return Err(PayloadError::MissingField(Field::Expiry)),
        };
        let verifiable_credential = match vc {
            Some(v) => v,
            None => return Err(PayloadError::MissingField(Field::VerifiableCredential)),
        };
        if end != b.len() {
            return Err(PayloadError::Malformed);
        }
        Ok(CwtClaims { cwt_token_id, issuer, not_before, expiry, verifiable_credential })
    }
}

} // verus!
