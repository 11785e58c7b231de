//! The barcode layer: `NZCP:/<version>/<payload>`, where the payload is base-32
//! (RFC 4648 alphabet, upper case, no padding).
use vstd::prelude::*;
use vstd::string::StringSliceAdditionalSpecFns;

verus! {

/// What is wrong with a barcode string.
#[derive(Debug, Clone, Copy, PartialEq, Eq, Structural)]
pub enum QrBarcodeError {
    /// The string does not begin with `NZCP:/`.
    InvalidPrefix,
    /// The version segment is not `1`.
    InvalidVersion,
    /// The payload is not valid base-32.
    InvalidBase32,
}

/// The bytes carried by a barcode.
#[derive(Debug, Clone, PartialEq, Eq)]
pub struct QrBarcode(pub Vec<u8>);

/// `NZCP:/`
pub open spec fn barcode_prefix() -> Seq<u8> {
    seq![78u8, 90u8, 67u8, 80u8, 58u8, 47u8]
}

/// The ASCII digit `1`.
pub const VERSION_ONE: u8 = 49;

/// The ASCII slash.
pub const SLASH: u8 = 47;

/// The value of a base-32 character, if it is one.
pub open spec fn base32_value(c: u8) -> Option<u8> {
    if 65 <= c <= 90 {
        Some((c - 65) as u8)
    } else if 50 <= c <= 55 {
        Some((c - 24) as u8)
    } else {
        None
    }
}

/// Whether every character of `s` is a base-32 character.
pub open spec fn all_base32(s: Seq<u8>) -> bool {
    forall|i: int| 0 <= i < s.len() ==> (#[trigger] base32_value(s[i])) is Some
}

/// Whether a text of `n` base-32 characters can be decoded: a last partial group of
/// 1, 3 or 6 characters cannot.
pub open spec fn valid_base32_length(n: nat) -> bool {
    n % 8 != 1 && n % 8 != 3 && n % 8 != 6
}

/// The value of character `i` of `s`, zero past its end.
pub open spec fn value_at(s: Seq<u8>, i: int) -> nat {
    if 0 <= i < s.len() {
        match base32_value(s[i]) {
            Some(v) => v as nat,
            None => 0,
        }
    } else {
        0
    }
}

/// `32^n`.
pub open spec fn pow32(n: nat) -> nat
    decreases n,
{
    if n == 0 {
        1
    } else {
        32 * pow32((n - 1) as nat)
    }
}

/// The big-endian value of the first `i` characters of the group that starts at `start`.
pub open spec fn group_prefix_value(s: Seq<u8>, start: int, i: nat) -> nat
    decreases i,
{
    if i == 0 {
        0
    } else {
        group_prefix_value(s, start, (i - 1) as nat) * 32 + value_at(s, start + i - 1)
    }
}

/// The 40-bit value of group `g`: characters `8g` to `8g + 7`.
pub open spec fn group_value(s: Seq<u8>, g: int) -> nat {
    group_prefix_value(s, 8 * g, 8)
}

/// Byte `k` of the decoding: byte `k % 5` of group `k / 5`, most significant first.
pub open spec fn decoded_byte(s: Seq<u8>, k: int) -> u8 {
    ((group_value(s, k / 5) / crate::cbor::pow256((4 - k % 5) as nat)) % 256) as u8
}

/// The base-32 decoding of `s`, if it is valid.
pub open spec fn base32_decode(s: Seq<u8>) -> Option<Seq<u8>> {
    if all_base32(s) && valid_base32_length(s.len()) {
        Some(Seq::new(s.len() * 5 / 8, |k: int| decoded_byte(s, k)))
    } else {
        None
    }
}

/// What a barcode string (as UTF-8 bytes) decodes to.
pub open spec fn barcode(s: Seq<u8>) -> Result<Seq<u8>, QrBarcodeError> {
    if s.len() < 6 || s.subrange(0, 6) != barcode_prefix() {
        Err(QrBarcodeError::InvalidPrefix)
    } else if s.len() < 8 || s[6] != VERSION_ONE || s[7] != SLASH {
        Err(QrBarcodeError::InvalidVersion)
    } else {
        match base32_decode(s.subrange(8, s.len() as int)) {
            Some(d) => Ok(d),
            None => Err(QrBarcodeError::InvalidBase32),
        }
    }
}

proof fn lemma_group_prefix_bound(s: Seq<u8>, start: int, i: nat)
    requires
        all_base32(s),
    ensures
        group_prefix_value(s, start, i) < pow32(i),
    decreases i,
{
    if i > 0 {
        lemma_group_prefix_bound(s, start, (i - 1) as nat);
        let v = group_prefix_value(s, start, (i - 1) as nat);
        let x = value_at(s, start + i - 1);
        let m = pow32((i - 1) as nat);
        if 0 <= start + i - 1 < s.len() {
            assert(base32_value(s[start + i - 1]) is Some);
        }
        assert(x < 32);
        assert(v * 32 + x < 32 * m) by (nonlinear_arith)
            requires
                v < m,
                x < 32,
        ;
    }
}

fn base32_char_value(c: u8) -> (r: Option<u8>)
    ensures
        r == base32_value(c),
{
    if 65 <= c && c <= 90 {
        Some(c - 65)
    } else if 50 <= c && c <= 55 {
        Some(c - 24)
    } else {
        None
    }
}

/// Decodes base-32 text without padding.
pub fn decode_base32(s: &[u8]) -> (r: Option<Vec<u8>>)
    ensures
        match base32_decode(s@) {
            Some(d) => r matches Some(v) && v@ == d,
            None => r is None,
        },
{
    let mut i: usize = 0;
    while i < s.len()
        invariant
            i <= s@.len(),
            forall|j: int| 0 <= j < i ==> (#[trigger] base32_value(s@[j])) is Some,
        decreases s@.len() - i,
    {
        if base32_char_value(s[i]).is_none() {
            return None;
        }
        i = i + 1;
    }
    let n = s.len();
    if n % 8 == 1 || n % 8 == 3 || n % 8 == 6 {
        return None;
    }
    let out_len: usize = n / 8 * 5 + (n % 8) * 5 / 8;
    assert(out_len == n * 5 / 8) by (nonlinear_arith)
        requires
            out_len == n / 8 * 5 + (n % 8) * 5 / 8,
    ;
    let groups: usize = n / 8 + if n % 8 == 0 {
        0
    } else {
        1
    };
    let mut out: Vec<u8> = Vec::new();
    let mut g: usize = 0;
    while g < groups
        invariant
            all_base32(s@),
            n == s@.len(),
            out_len == n * 5 / 8,
            groups == n / 8 + if n % 8 == 0 {
                0nat
            } else {
                1nat
            },
            g <= groups,
            out@.len() == if 5 * g <= out_len {
                5 * g
            } else {
                out_len as int
            },
            forall|k: int| 0 <= k < out@.len() ==> out@[k] == decoded_byte(s@, k),
        decreases groups - g,
    {
        let mut acc: u64 = 0;
        let mut i: usize = 0;
        while i < 8
            invariant
                all_base32(s@),
                n == s@.len(),
                g < groups,
                groups <= n / 8 + 1,
                i <= 8,
                acc as nat == group_prefix_value(s@, 8 * g, i as nat),
            decreases 8 - i,
        {
            proof {
                lemma_group_prefix_bound(s@, 8 * g, i as nat);
                assert(pow32(i as nat) <= pow32(7)) by {
                    reveal_with_fuel(pow32, 9);
                }
                assert(pow32(7) == 34359738368) by {
                    reveal_with_fuel(pow32, 8);
                }
            }
            let v: u8 = if 8 * g + i < n {
                match base32_char_value(s[8 * g + i]) {
                    Some(v) => v,
                    None => 0,
                }
            } else {
                0
            };
            assert(v as nat == value_at(s@, 8 * g + i));
            acc = acc * 32 + v as u64;
            i = i + 1;
        }
        assert(acc as nat == group_value(s@, g as int));
        let mut j: usize = 0;
        while j < 5
            invariant
                all_base32(s@),
                n == s@.len(),
                out_len == n * 5 / 8,
                g < groups,
                groups <= n / 8 + 1,
                n <= usize::MAX,
                j <= 5,
                acc as nat == group_value(s@, g as int),
                out@.len() == if 5 * g + j <= out_len {
                    5 * g + j
                } else {
                    out_len as int
                },
                forall|k: int| 0 <= k < out@.len() ==> out@[k] == decoded_byte(s@, k),
            decreases 5 - j,
        {
            let k: usize = 5 * g + j;
            if k < out_len {
                let div: u64 = if j == 0 {
                    4294967296
                } else if j == 1 {
                    16777216
                } else if j == 2 {
                    65536
                } else if j == 3 {
                    256
                } else {
                    1
                };
                assert(div as nat == crate::cbor::pow256((4 - k % 5) as nat)) by {
                    assert(k / 5 == g && k % 5 == j) by (nonlinear_arith)
                        requires
                            k == 5 * g + j,
                            j < 5,
                    ;
                    reveal_with_fuel(crate::cbor::pow256, 5);
                }
                assert(k as int / 5 == g) by (nonlinear_arith)
                    requires
                        k == 5 * g + j,
                        j < 5,
                ;
                out.push(((acc / div) % 256) as u8);
            }
            j = j + 1;
        }
        g = g + 1;
    }
    assert(out_len <= 5 * groups) by (nonlinear_arith)
        requires
            out_len == n * 5 / 8,
            groups == n / 8 + if n % 8 == 0 {
                0nat
            } else {
                1nat
            },
    ;
    assert(out@ =~= Seq::new((n * 5 / 8) as nat, |k: int| decoded_byte(s@, k)));
    Some(out)
}

impl QrBarcode {
    /// Parses a barcode string of the form `NZCP:/1/<base-32 payload>`.
    pub fn parse(s: &str) -> (r: Result<QrBarcode, QrBarcodeError>)
        ensures
            match barcode(s.spec_bytes()) {
                Ok(d) => r matches Ok(bc) && bc.0@ == d,
                Err(e) => r == Err::<QrBarcode, QrBarcodeError>(e),
            },
    {
        let b = s.as_bytes();
        if b.len() < 6 || b[0] != 78 || b[1] != 90 || b[2] != 67 || b[3] != 80 || b[4] != 58
            || b[5] != 47 {
            proof {
                if b@.len() >= 6 {
                    assert(b@.subrange(0, 6)[0] == b@[0]);
                    assert(b@.subrange(0, 6)[1] == b@[1]);
                    assert(b@.subrange(0, 6)[2] == b@[2]);
                    assert(b@.subrange(0, 6)[3] == b@[3]);
                    assert(b@.subrange(0, 6)[4] == b@[4]);
                    assert(b@.subrange(0, 6)[5] == b@[5]);
                }
            }
            return Err(QrBarcodeError::InvalidPrefix);
        }
        assert(b@.subrange(0, 6) =~= barcode_prefix());
        if b.len() < 8 || b[6] != VERSION_ONE || b[7] != SLASH {
            return Err(QrBarcodeError::InvalidVersion);
        }
        let payload = vstd::slice::slice_subrange(b, 8, b.len());
        match decode_base32(payload) {
            Some(d) => Ok(QrBarcode(d)),
            None => Err(QrBarcodeError::InvalidBase32),
        }
    }
}

/// A barcode whose version segment (the text between the prefix and the next slash) is
/// anything but `1` is refused for its version, whatever its payload.
pub proof fn lemma_unsupported_version_refused(version: Seq<u8>, payload: Seq<u8>)
    requires
        version != seq![VERSION_ONE],
        forall|i: int| 0 <= i < version.len() ==> version[i] != SLASH,
    ensures
        barcode(barcode_prefix() + version + seq![SLASH] + payload) == Err::<Seq<u8>, QrBarcodeError>(
            QrBarcodeError::InvalidVersion,
        ),
{
    let s = barcode_prefix() + version + seq![SLASH] + payload;
    assert(s.subrange(0, 6) =~= barcode_prefix());
    if version.len() == 0 {
        assert(s[6] == SLASH);
    } else if version.len() == 1 {
        assert(s[6] == version[0]);
        assert(version =~= seq![version[0]]);
    } else {
        assert(s[7] == version[1]);
    }
}

/// A version-1 barcode whose payload holds a character outside the base-32 alphabet is
/// refused as invalid base-32.
pub proof fn lemma_non_base32_payload_refused(payload: Seq<u8>, i: int)
    requires
        0 <= i < payload.len(),
        base32_value(payload[i]) is None,
    ensures
        barcode(barcode_prefix() + seq![VERSION_ONE, SLASH] + payload) == Err::<Seq<u8>, QrBarcodeError>(
            QrBarcodeError::InvalidBase32,
        ),
{
    let s = barcode_prefix() + seq![VERSION_ONE, SLASH] + payload;
    assert(s.subrange(0, 6) =~= barcode_prefix());
    assert(s.subrange(8, s.len() as int) =~= payload);
    assert(!all_base32(payload));
}

} // verus!
