//! Decentralized identifiers of the `did:web` method, and the lookup of an issuer's
//! public key in its resolved DID document.
use vstd::prelude::*;
use vstd::string::StrSliceExecFns;

verus! {

/// `did:web:`
pub open spec fn did_web_prefix() -> Seq<char> {
    seq!['d', 'i', 'd', ':', 'w', 'e', 'b', ':']
}

/// The issuer of a pass. Only the `web` method is supported; it holds the domain part
/// (the text after `did:web:`).
#[derive(Debug, Clone, PartialEq, Eq)]
pub enum DecentralizedIdentifier {
    Web(String),
}

/// Why the public key of an issuer could not be resolved.
#[derive(Debug, Clone, PartialEq, Eq)]
pub enum DecentralizedIdentifierError {
    /// Resolution failed; holds the resolver's message.
    ResolutionError(String),
    /// Resolution returned no document.
    EmptyDocument,
    /// The document has no `assertionMethod` array.
    MissingAssertionMethods,
    /// The key's absolute reference (held here) is not listed in `assertionMethod`.
    MissingAssertionMethod(String),
    /// The document has no `verificationMethod` array.
    MissingVerificationMethods,
    /// No entry of `verificationMethod` has the key's absolute reference (held here).
    MissingVerificationMethod(String),
    /// The verification method's type is not `JsonWebKey2020`.
    NotJsonWebKey2020,
    /// The verification method has no `publicKeyJwk`.
    MissingJWK,
    /// The JWK is not an elliptic-curve key.
    JWKNotEllipticCurve,
    /// The JWK has no x coordinate.
    JWKMissingX,
    /// The JWK has no y coordinate.
    JWKMissingY,
    /// The JWK's curve is not `P-256`.
    JWKWrongCurve,
}

/// The parameters of an elliptic-curve JSON Web Key; coordinates are the decoded bytes.
#[derive(Debug, Clone, PartialEq, Eq)]
pub struct EcParams {
    pub curve: Option<String>,
    pub x_coordinate: Option<Vec<u8>>,
    pub y_coordinate: Option<Vec<u8>>,
}

/// The parameters of a JSON Web Key, as far as key lookup reads them.
#[derive(Debug, Clone, PartialEq, Eq)]
pub enum JwkParams {
    EllipticCurve(EcParams),
    /// A key of another type (RSA, octet, ...).
    Other,
}

/// An entry of `verificationMethod` given as an object.
#[derive(Debug, Clone, PartialEq, Eq)]
pub struct VerificationMethodMap {
    pub id: String,
    pub type_: String,
    pub public_key_jwk: Option<JwkParams>,
}

/// An entry of `assertionMethod` or `verificationMethod`.
#[derive(Debug, Clone, PartialEq, Eq)]
pub enum VerificationMethod {
    /// An absolute DID URL.
    DidUrl(String),
    /// A DID URL relative to the document.
    RelativeDidUrl(String),
    /// An embedded verification method.
    Embedded(VerificationMethodMap),
}

/// The parts of a DID document that key lookup reads.
#[derive(Debug, Clone, PartialEq, Eq)]
pub struct Document {
    pub assertion_method: Option<Vec<VerificationMethod>>,
    pub verification_method: Option<Vec<VerificationMethod>>,
}

/// An uncompressed P-256 public key: its affine coordinates as big-endian bytes.
#[derive(Debug, Clone, PartialEq, Eq)]
pub struct PublicKey {
    pub x: Vec<u8>,
    pub y: Vec<u8>,
}

/// `JsonWebKey2020`
pub open spec fn json_web_key_2020() -> Seq<char> {
    seq!['J', 's', 'o', 'n', 'W', 'e', 'b', 'K', 'e', 'y', '2', '0', '2', '0']
}

/// `P-256`
pub open spec fn p256_curve() -> Seq<char> {
    seq!['P', '-', '2', '5', '6']
}

impl DecentralizedIdentifier {
    /// The domain of a `did:web` identifier.
    pub open spec fn spec_domain(&self) -> Seq<char> {
        match self {
            DecentralizedIdentifier::Web(d) => d@,
        }
    }

    /// The full identifier: `did:web:` followed by the domain.
    pub open spec fn spec_did(&self) -> Seq<char> {
        did_web_prefix() + self.spec_domain()
    }

    /// The full identifier: `did:web:` followed by the domain.
    pub fn did(&self) -> (r: String)
        ensures
            r@ == self.spec_did(),
    {
        let mut r = String::new();
        r.append("did:web:");
        proof {
            reveal_strlit("did:web:");
        }
        match self {
            DecentralizedIdentifier::Web(d) => r.append(d.as_str()),
        }
        r
    }

    /// Reads an issuer from its full identifier, which must use the `web` method.
    pub fn from_did(did: &String) -> (r: Option<DecentralizedIdentifier>)
        ensures
            r is Some <==> did@.len() >= 8 && did@.subrange(0, 8) == did_web_prefix(),
            r matches Some(i) ==> did_web_prefix() + i.spec_domain() == did@,
    {
        let chars = did.as_str();
        let n = chars.unicode_len();
        if n < 8 {
            return None;
        }
        let mut i: usize = 0;
        while i < 8
            invariant
                n == did@.len(),
                chars@ == did@,
                n >= 8,
                i <= 8,
                forall|j: int| 0 <= j < i ==> did@[j] == did_web_prefix()[j],
            decreases 8 - i,
        {
            let c = chars.get_char(i);
            let expected = if i == 0 || i == 2 {
                'd'
            } else if i == 1 {
                'i'
            } else if i == 3 || i == 7 {
                ':'
            } else if i == 4 {
                'w'
            } else if i == 5 {
                'e'
            } else {
                'b'
            };
            assert(expected == did_web_prefix()[i as int]);
            if c != expected {
                return None;
            }
            i = i + 1;
        }
        assert(did@.subrange(0, 8) =~= did_web_prefix());
        let domain = chars.substring_char(8, n);
        assert(did_web_prefix() + domain@ =~= did@);
        Some(DecentralizedIdentifier::Web(domain.to_string()))
    }

    /// The absolute reference of key `kid` of this issuer: `<did>#<kid>`.
    pub open spec fn absolute_key(&self, kid: Seq<char>) -> Seq<char> {
        self.spec_did() + seq!['#'] + kid
    }
}

/// What a resolver returned: an error message, or a document, or neither.
pub open spec fn document_result(error: Option<String>, document: Option<Document>) -> Result<
    Document,
    DecentralizedIdentifierError,
> {
    match error {
        Some(e) => Err(DecentralizedIdentifierError::ResolutionError(e)),
        None => match document {
            Some(d) => Ok(d),
            None => Err(DecentralizedIdentifierError::EmptyDocument),
        },
    }
}

/// Takes the document out of what a resolver returned; an error it reports comes first.
pub fn resolved_document(error: Option<String>, document: Option<Document>) -> (r: Result<
    Document,
    DecentralizedIdentifierError,
>)
    ensures
        r == document_result(error, document),
{
    if let Some(e) = error {
        Err(DecentralizedIdentifierError::ResolutionError(e))
    } else if let Some(d) = document {
        Ok(d)
    } else {
        Err(DecentralizedIdentifierError::EmptyDocument)
    }
}

/// Whether `m` is the absolute DID URL `key`.
pub open spec fn references(m: VerificationMethod, key: Seq<char>) -> bool {
    m matches VerificationMethod::DidUrl(u) && u@ == key
}

/// Whether `m` is an embedded verification method whose id is `key`.
pub open spec fn embeds(m: VerificationMethod, key: Seq<char>) -> bool {
    m matches VerificationMethod::Embedded(map) && map.id@ == key
}

/// The key that a verification method holds, or why it holds none.
pub open spec fn key_of_method(m: VerificationMethodMap) -> Result<
    (Seq<u8>, Seq<u8>),
    DecentralizedIdentifierError,
> {
    if m.type_@ != json_web_key_2020() {
        Err(DecentralizedIdentifierError::NotJsonWebKey2020)
    } else {
        match m.public_key_jwk {
            None => Err(DecentralizedIdentifierError::MissingJWK),
            Some(JwkParams::Other) => Err(DecentralizedIdentifierError::JWKNotEllipticCurve),
            Some(JwkParams::EllipticCurve(ec)) => if !(ec.curve matches Some(c) && c@
                == p256_curve()) {
                Err(DecentralizedIdentifierError::JWKWrongCurve)
            } else {
                match ec.x_coordinate {
                    None => Err(DecentralizedIdentifierError::JWKMissingX),
                    Some(x) => match ec.y_coordinate {
                        None => Err(DecentralizedIdentifierError::JWKMissingY),
                        Some(y) => Ok((x@, y@)),
                    },
                }
            },
        }
    }
}

/// Whether `r` is what the lookup of a key in verification method `m` gives.
pub open spec fn key_result(m: VerificationMethodMap, r: Result<PublicKey, DecentralizedIdentifierError>) -> bool {
    match key_of_method(m) {
        Ok((x, y)) => r matches Ok(k) && k.x@ == x && k.y@ == y,
        Err(e) => r == Err::<PublicKey, _>(e),
    }
}

/// Whether entry `i` of `methods` is the first that embeds `key`.
pub open spec fn first_embedding(methods: Seq<VerificationMethod>, key: Seq<char>, i: int) -> bool {
    0 <= i < methods.len() && embeds(methods[i], key) && forall|j: int|
        0 <= j < i ==> !embeds(#[trigger] methods[j], key)
}

/// Whether the verification-method part of a lookup of `key` in `document` ends in
/// `r`: the first embedded method with that id, and the key it holds.
pub open spec fn verification_method_lookup(
    document: Document,
    key: Seq<char>,
    r: Result<PublicKey, DecentralizedIdentifierError>,
) -> bool {
    match document.verification_method {
        None => r == Err::<PublicKey, _>(DecentralizedIdentifierError::MissingVerificationMethods),
        Some(vms) => if !(exists|i: int| first_embedding(vms@, key, i)) {
            r matches Err(DecentralizedIdentifierError::MissingVerificationMethod(s)) && s@ == key
        } else {
            exists|i: int|
                first_embedding(vms@, key, i) && (vms@[i] matches VerificationMethod::Embedded(map)
                    && key_result(map, r))
        },
    }
}

/// Whether a lookup of `key` in `document` ends in `r`: the key must be listed in
/// `assertionMethod`, and an embedded verification method with that id must hold a
/// P-256 JSON Web Key with both coordinates.
pub open spec fn key_lookup(
    document: Document,
    key: Seq<char>,
    r: Result<PublicKey, DecentralizedIdentifierError>,
) -> bool {
    match document.assertion_method {
        None => r == Err::<PublicKey, _>(DecentralizedIdentifierError::MissingAssertionMethods),
        Some(ams) => if !(exists|i: int| 0 <= i < ams@.len() && references(#[trigger] ams@[i], key)) {
            r matches Err(DecentralizedIdentifierError::MissingAssertionMethod(s)) && s@ == key
        } else {
            verification_method_lookup(document, key, r)
        },
    }
}

fn key_from_method(m: &VerificationMethodMap) -> (r: Result<PublicKey, DecentralizedIdentifierError>)
    ensures
        key_result(*m, r),
{
    let expected_type = "JsonWebKey2020".to_owned();
    proof {
        reveal_strlit("JsonWebKey2020");
        assert(expected_type@ =~= json_web_key_2020());
    }
    if m.type_ != expected_type {
        return Err(DecentralizedIdentifierError::NotJsonWebKey2020);
    }
    match &m.public_key_jwk {
        None => Err(DecentralizedIdentifierError::MissingJWK),
        Some(JwkParams::Other) => Err(DecentralizedIdentifierError::JWKNotEllipticCurve),
        Some(JwkParams::EllipticCurve(ec)) => {
            let expected_curve = "P-256".to_owned();
            proof {
                reveal_strlit("P-256");
                assert(expected_curve@ =~= p256_curve());
            }
            let right_curve = match &ec.curve {
                Some(c) => *c == expected_curve,
                None => false,
            };
            if !right_curve {
                return Err(DecentralizedIdentifierError::JWKWrongCurve);
            }
            match &ec.x_coordinate {
                None => Err(DecentralizedIdentifierError::JWKMissingX),
                Some(x) => match &ec.y_coordinate {
                    None => Err(DecentralizedIdentifierError::JWKMissingY),
                    Some(y) => {
                        let k = PublicKey { x: x.clone(), y: y.clone() };
                        assert(k.x@ =~= x@);
                        assert(k.y@ =~= y@);
                        Ok(k)
                    },
                },
            }
        },
    }
}

impl DecentralizedIdentifier {
    /// Looks up key `kid` of this issuer in its DID document.
    pub fn public_key_from_document(&self, document: &Document, kid: &String) -> (r: Result<
        PublicKey,
        DecentralizedIdentifierError,
    >)
        ensures
            key_lookup(*document, self.absolute_key(kid@), r),
    {
        let mut absolute_key = self.did();
        absolute_key.append("#");
        proof {
            reveal_strlit("#");
        }
        absolute_key.append(kid.as_str());
        assert(absolute_key@ == self.absolute_key(kid@));
        let ams = match &document.assertion_method {
            None => return Err(DecentralizedIdentifierError::MissingAssertionMethods),
            Some(ams) => ams,
        };
        let mut listed = false;
        let mut i: usize = 0;
        while i < ams.len()
            invariant
                i <= ams@.len(),
                absolute_key@ == self.absolute_key(kid@),
                listed <==> exists|j: int| 0 <= j < i && references(#[trigger] ams@[j], absolute_key@),
            decreases ams@.len() - i,
        {
            if let VerificationMethod::DidUrl(u) = &ams[i] {
                if *u == absolute_key {
                    listed = true;
                }
            }
            i = i + 1;
        }
        if !listed {
            return Err(DecentralizedIdentifierError::MissingAssertionMethod(absolute_key));
        }
        let vms = match &document.verification_method {
            None => return Err(DecentralizedIdentifierError::MissingVerificationMethods),
            Some(vms) => vms,
        };
        let mut j: usize = 0;
        while j < vms.len()
            invariant
                j <= vms@.len(),
                document.verification_method == Some(*vms),
                document.assertion_method == Some(*ams),
                absolute_key@ == self.absolute_key(kid@),
                exists|k: int| 0 <= k < ams@.len() && references(#[trigger] ams@[k], absolute_key@),
                forall|k: int| 0 <= k < j ==> !embeds(#[trigger] vms@[k], absolute_key@),
            decreases vms@.len() - j,
        {
            if let VerificationMethod::Embedded(map) = &vms[j] {
                if map.id == absolute_key {
                    assert(first_embedding(vms@, absolute_key@, j as int));
                    let r = key_from_method(map);
                    assert(vms@[j as int] == VerificationMethod::Embedded(*map));
                    assert(verification_method_lookup(*document, absolute_key@, r));
                    assert(document.assertion_method.unwrap()@ == ams@);
                    return r;
                }
            }
            j = j + 1;
        }
        assert forall|k: int| !first_embedding(vms@, absolute_key@, k) by {}
        Err(DecentralizedIdentifierError::MissingVerificationMethod(absolute_key))
    }
}

/// A key that `assertionMethod` does not list is refused, however well-formed the
/// verification method that holds it: the lookup ends in the missing-assertion-method
/// error, naming the key's absolute reference.
pub proof fn lemma_unlisted_method_refused(
    document: Document,
    key: Seq<char>,
    r: Result<PublicKey, DecentralizedIdentifierError>,
)
    requires
        document.assertion_method matches Some(ams) && forall|i: int|
            0 <= i < ams@.len() ==> !references(#[trigger] ams@[i], key),
        key_lookup(document, key, r),
    ensures
        r matches Err(DecentralizedIdentifierError::MissingAssertionMethod(s)) && s@ == key,
{
}

} // verus!
