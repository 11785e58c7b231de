//! A reader for the CBOR (RFC 8949) that the envelope uses. Arrays, maps and skipped
//! strings may have definite or indefinite length; strings that are read must have
//! definite length. Every reader works on a byte buffer and a position, and hands back
//! the position just past what it read, so that callers keep exact byte spans.
use vstd::prelude::*;
use vstd::utf8::decode_utf8;
use vstd::utf8::valid_utf8;
use vstd::slice::slice_subrange;
use vstd::slice::slice_to_vec;

verus! {

/// Major type of unsigned integers.
pub const MAJOR_UNSIGNED: u8 = 0;

/// Major type of negative integers.
pub const MAJOR_NEGATIVE: u8 = 1;

/// Major type of byte strings.
pub const MAJOR_BYTES: u8 = 2;

/// Major type of text strings.
pub const MAJOR_TEXT: u8 = 3;

/// Major type of arrays.
pub const MAJOR_ARRAY: u8 = 4;

/// Major type of maps.
pub const MAJOR_MAP: u8 = 5;

/// Major type of tagged items.
pub const MAJOR_TAG: u8 = 6;

/// How deeply arrays, maps and tags may nest inside an item that is skipped.
pub const MAX_DEPTH: usize = 128;

/// The byte that ends an item of indefinite length.
pub const BREAK: u8 = 0xff;

/// `256^n`.
pub open spec fn pow256(n: nat) -> nat
    decreases n,
{
    if n == 0 {
        1
    } else {
        256 * pow256((n - 1) as nat)
    }
}

/// The big-endian unsigned integer held by the `n` bytes of `b` from position `p`.
pub open spec fn uint_be(b: Seq<u8>, p: int, n: nat) -> nat
    decreases n,
{
    if n == 0 {
        0
    } else {
        uint_be(b, p, (n - 1) as nat) * 256 + b[p + n - 1] as nat
    }
}

/// How many argument bytes follow an initial byte whose additional information is `ai`
/// (24 to 27).
pub open spec fn arg_width(ai: int) -> nat {
    if ai == 24 {
        1
    } else if ai == 25 {
        2
    } else if ai == 26 {
        4
    } else {
        8
    }
}

/// The head of the item at `p`: its major type, its argument, and the position after
/// the head. `None` where the buffer ends early, or for the reserved values and the
/// indefinite-length marker.
pub open spec fn head(b: Seq<u8>, p: int) -> Option<(u8, u64, int)> {
    if p < 0 || p >= b.len() {
        None
    } else {
        let major = (b[p] / 32) as u8;
        let ai = b[p] % 32;
        if ai < 24 {
            Some((major, ai as u64, p + 1))
        } else if ai <= 27 && p + 1 + arg_width(ai as int) <= b.len() {
            Some((major, uint_be(b, p + 1, arg_width(ai as int)) as u64, p + 1 + arg_width(ai as int)))
        } else {
            None
        }
    }
}

/// Whether the item at `p` has indefinite length (additional information 31).
pub open spec fn is_indefinite(b: Seq<u8>, p: int) -> bool {
    0 <= p < b.len() && b[p] % 32 == 31
}

/// Where the definite-length chunks of major type `major` from `p`, ended by a break
/// byte, end.
pub open spec fn skip_chunks(b: Seq<u8>, p: int, major: u8) -> Option<int>
    decreases b.len() - p,
{
    if p < 0 || p >= b.len() {
        None
    } else if b[p] == BREAK {
        Some(p + 1)
    } else {
        match string_item(b, p, major) {
            None => None,
            Some((_, q)) => if q <= p {
                None
            } else {
                skip_chunks(b, q, major)
            },
        }
    }
}

/// Where the well-formed item at `p` ends, with at most `depth` levels of nesting.
pub open spec fn skip(b: Seq<u8>, p: int, depth: nat) -> Option<int>
    decreases depth, 0nat,
{
    if is_indefinite(b, p) {
        let major = (b[p] / 32) as u8;
        if major == MAJOR_BYTES || major == MAJOR_TEXT {
            skip_chunks(b, p + 1, major)
        } else if (major == MAJOR_ARRAY || major == MAJOR_MAP) && depth > 0 {
            match indefinite_count(b, p + 1, major == MAJOR_MAP, (depth - 1) as nat, 0) {
                Some((_, e)) => Some(e),
                None => None,
            }
        } else {
            None
        }
    } else {
        match head(b, p) {
            None => None,
            Some((major, arg, q)) => if major == MAJOR_BYTES || major == MAJOR_TEXT {
                if q + arg <= b.len() {
                    Some(q + arg)
                } else {
                    None
                }
            } else if major == MAJOR_ARRAY || major == MAJOR_MAP || major == MAJOR_TAG {
                if depth == 0 {
                    None
                } else if major == MAJOR_ARRAY {
                    skip_n(b, q, arg as nat, (depth - 1) as nat)
                } else if major == MAJOR_MAP {
                    skip_n(b, q, 2 * arg as nat, (depth - 1) as nat)
                } else {
                    skip(b, q, (depth - 1) as nat)
                }
            } else {
                Some(q)
            },
        }
    }
}

/// Counts, from `acc` on, the items (key-value pairs where `pairs`) from `p` up to a
/// break byte: the count and the position after the break.
pub open spec fn indefinite_count(b: Seq<u8>, p: int, pairs: bool, depth: nat, acc: nat) -> Option<
    (nat, int),
>
    decreases depth, (b.len() - p) as nat,
{
    if p < 0 || p >= b.len() {
        None
    } else if b[p] == BREAK {
        Some((acc, p + 1))
    } else {
        match skip(b, p, depth) {
            None => None,
            Some(q) => match (if pairs {
                skip(b, q, depth)
            } else {
                Some(q)
            }) {
                None => None,
                Some(r) => if r <= p || r > b.len() {
                    None
                } else {
                    indefinite_count(b, r, pairs, depth, acc + 1)
                },
            },
        }
    }
}

/// The array or map (by `major`) at `p`: how many items (pairs, for a map) it holds,
/// where they start, and whether a break byte ends it.
pub open spec fn container(b: Seq<u8>, p: int, major: u8) -> Option<(nat, int, bool)> {
    if is_indefinite(b, p) {
        if b[p] / 32 == major {
            match indefinite_count(b, p + 1, major == MAJOR_MAP, MAX_DEPTH as nat, 0) {
                Some((c, _)) => Some((c, p + 1, true)),
                None => None,
            }
        } else {
            None
        }
    } else {
        match head(b, p) {
            Some((m, a, q)) => if m == major {
                Some((a as nat, q, false))
            } else {
                None
            },
            None => None,
        }
    }
}

/// Where a container whose entries end at `e` ends: after its break byte, if it has one.
pub open spec fn close(b: Seq<u8>, e: int, indefinite: bool) -> Option<int> {
    if !indefinite {
        Some(e)
    } else if 0 <= e < b.len() && b[e] == BREAK {
        Some(e + 1)
    } else {
        None
    }
}

/// Where the `n` consecutive well-formed items from `p` end.
pub open spec fn skip_n(b: Seq<u8>, p: int, n: nat, depth: nat) -> Option<int>
    decreases depth, n,
{
    if n == 0 {
        Some(p)
    } else {
        match skip(b, p, depth) {
            None => None,
            Some(q) => skip_n(b, q, (n - 1) as nat, depth),
        }
    }
}

/// The string item of major type `major` at `p`: its content and the position after it.
pub open spec fn string_item(b: Seq<u8>, p: int, major: u8) -> Option<(Seq<u8>, int)> {
    match head(b, p) {
        Some((m, arg, q)) => if m == major && q + arg <= b.len() {
            Some((b.subrange(q, q + arg), q + arg))
        } else {
            None
        },
        None => None,
    }
}

/// The text item at `p`, which must hold valid UTF-8: its characters and the position
/// after it.
pub open spec fn text_item(b: Seq<u8>, p: int) -> Option<(Seq<char>, int)> {
    match string_item(b, p, MAJOR_TEXT) {
        Some((content, q)) => if valid_utf8(content) {
            Some((decode_utf8(content), q))
        } else {
            None
        },
        None => None,
    }
}

/// The text or byte-string item at `p`, whose content must be valid UTF-8: its
/// characters and the position after it.
pub open spec fn utf8_item(b: Seq<u8>, p: int) -> Option<(Seq<char>, int)> {
    match head(b, p) {
        Some((m, _, _)) => if m == MAJOR_BYTES {
            match string_item(b, p, MAJOR_BYTES) {
                Some((content, q)) => if valid_utf8(content) {
                    Some((decode_utf8(content), q))
                } else {
                    None
                },
                None => None,
            }
        } else {
            text_item(b, p)
        },
        None => None,
    }
}

/// The integer item at `p`: its value and the position after it.
pub open spec fn int_item(b: Seq<u8>, p: int) -> Option<(int, int)> {
    match head(b, p) {
        Some((m, arg, q)) => if m == MAJOR_UNSIGNED {
            Some((arg as int, q))
        } else if m == MAJOR_NEGATIVE {
            Some((-1 - arg as int, q))
        } else {
            None
        },
        None => None,
    }
}

proof fn lemma_uint_be_bound(b: Seq<u8>, p: int, n: nat)
    ensures
        uint_be(b, p, n) < pow256(n),
    decreases n,
{
    if n > 0 {
        lemma_uint_be_bound(b, p, (n - 1) as nat);
        let v = uint_be(b, p, (n - 1) as nat);
        let x = b[p + n - 1] as nat;
        let m = pow256((n - 1) as nat);
        assert(v * 256 + x < 256 * m) by (nonlinear_arith)
            requires
                v < m,
                x < 256,
        ;
    }
}

proof fn lemma_skip_chunks_bound(b: Seq<u8>, p: int, major: u8)
    ensures
        skip_chunks(b, p, major) matches Some(q) ==> p < q <= b.len(),
    decreases b.len() - p,
{
    if 0 <= p < b.len() && b[p] != BREAK {
        if let Some((_, q)) = string_item(b, p, major) {
            if q > p {
                lemma_skip_chunks_bound(b, q, major);
            }
        }
    }
}

proof fn lemma_skip_bound(b: Seq<u8>, p: int, depth: nat)
    ensures
        skip(b, p, depth) matches Some(q) ==> p < q <= b.len(),
    decreases depth, 0nat,
{
    if is_indefinite(b, p) {
        let major = (b[p] / 32) as u8;
        if major == MAJOR_BYTES || major == MAJOR_TEXT {
            lemma_skip_chunks_bound(b, p + 1, major);
        } else if (major == MAJOR_ARRAY || major == MAJOR_MAP) && depth > 0 {
            lemma_count_bound(b, p + 1, major == MAJOR_MAP, (depth - 1) as nat, 0);
        }
    } else if let Some((major, arg, q)) = head(b, p) {
        if major == MAJOR_ARRAY || major == MAJOR_MAP || major == MAJOR_TAG {
            if depth > 0 {
                if major == MAJOR_ARRAY {
                    lemma_skip_n_bound(b, q, arg as nat, (depth - 1) as nat);
                } else if major == MAJOR_MAP {
                    lemma_skip_n_bound(b, q, 2 * arg as nat, (depth - 1) as nat);
                } else {
                    lemma_skip_bound(b, q, (depth - 1) as nat);
                }
            }
        }
    }
}

proof fn lemma_count_bound(b: Seq<u8>, p: int, pairs: bool, depth: nat, acc: nat)
    ensures
        indefinite_count(b, p, pairs, depth, acc) matches Some((c, e)) ==> p < e <= b.len() && c
            <= acc + (e - p),
    decreases depth, (b.len() - p) as nat,
{
    if 0 <= p < b.len() && b[p] != BREAK {
        lemma_skip_bound(b, p, depth);
        if let Some(q) = skip(b, p, depth) {
            lemma_skip_bound(b, q, depth);
            let next = if pairs {
                skip(b, q, depth)
            } else {
                Some(q)
            };
            if let Some(r) = next {
                if p < r <= b.len() {
                    lemma_count_bound(b, r, pairs, depth, acc + 1);
                }
            }
        }
    }
}

proof fn lemma_skip_n_bound(b: Seq<u8>, p: int, n: nat, depth: nat)
    requires
        0 <= p <= b.len(),
    ensures
        skip_n(b, p, n, depth) matches Some(q) ==> p <= q <= b.len(),
    decreases depth, n,
{
    if n > 0 {
        lemma_skip_bound(b, p, depth);
        if let Some(q) = skip(b, p, depth) {
            lemma_skip_n_bound(b, q, (n - 1) as nat, depth);
        }
    }
}

/// Reads the head of the item at `p`.
pub fn read_head(b: &[u8], p: usize) -> (r: Option<(u8, u64, usize)>)
    ensures
        r is Some <==> head(b@, p as int) is Some,
        r matches Some((major, arg, q)) ==> head(b@, p as int) == Some((major, arg, q as int)) && p
            < q <= b@.len(),
{
    if p >= b.len() {
        return None;
    }
    let initial = b[p];
    let major = initial / 32;
    let ai = initial % 32;
    if ai < 24 {
        return Some((major, ai as u64, p + 1));
    }
    if ai > 27 {
        return None;
    }
    let width: usize = if ai == 24 {
        1
    } else if ai == 25 {
        2
    } else if ai == 26 {
        4
    } else {
        8
    };
    assert(width == arg_width(ai as int));
    if width > b.len() - p - 1 {
        return None;
    }
    let mut acc: u64 = 0;
    let mut i: usize = 0;
    while i < width
        invariant
            width <= 8,
            b@.len() == b.len(),
            p + 1 + width <= b@.len(),
            i <= width,
            acc as nat == uint_be(b@, p + 1, i as nat),
        decreases width - i,
    {
        proof {
            lemma_uint_be_bound(b@, p + 1, i as nat);
            assert(pow256(i as nat) <= pow256(7)) by {
                reveal_with_fuel(pow256, 9);
            }
            assert(pow256(7) == 72057594037927936) by {
                reveal_with_fuel(pow256, 8);
            }
        }
        acc = acc * 256 + b[p + 1 + i] as u64;
        i = i + 1;
    }
    Some((major, acc, p + 1 + width))
}

/// Finds where the well-formed item at `p` ends, with at most `depth` levels of nesting.
pub fn skip_item(b: &[u8], p: usize, depth: usize) -> (r: Option<usize>)
    ensures
        r is Some <==> skip(b@, p as int, depth as nat) is Some,
        r matches Some(q) ==> skip(b@, p as int, depth as nat) == Some(q as int) && p < q <= b@.len(),
    decreases depth, 0nat,
{
    proof {
        lemma_skip_bound(b@, p as int, depth as nat);
    }
    if p < b.len() && b[p] % 32 == 31 {
        let major = b[p] / 32;
        if major == MAJOR_BYTES || major == MAJOR_TEXT {
            return skip_chunks_exec(b, p + 1, major);
        }
        if (major == MAJOR_ARRAY || major == MAJOR_MAP) && depth > 0 {
            return match count_indefinite(b, p + 1, major == MAJOR_MAP, depth - 1) {
                Some((_, e)) => Some(e),
                None => None,
            };
        }
        return None;
    }
    let (major, arg, q) = match read_head(b, p) {
        Some(h) => h,
        None => return None,
    };
    if major == MAJOR_BYTES || major == MAJOR_TEXT {
        if arg as u128 <= (b.len() - q) as u128 {
            return Some(q + arg as usize);
        }
        return None;
    }
    if major != MAJOR_ARRAY && major != MAJOR_MAP && major != MAJOR_TAG {
        return Some(q);
    }
    if depth == 0 {
        return None;
    }
    if major == MAJOR_TAG {
        assert(skip(b@, p as int, depth as nat) == skip(b@, q as int, (depth - 1) as nat));
        return skip_item(b, q, depth - 1);
    }
    let per_entry: u64 = if major == MAJOR_MAP {
        2
    } else {
        1
    };
    let ghost total: nat = per_entry as nat * arg as nat;
    assert(skip(b@, p as int, depth as nat) == skip_n(b@, q as int, total, (depth - 1) as nat));
    let mut pos: usize = q;
    let mut i: u64 = 0;
    while i < arg
        invariant
            i <= arg,
            depth >= 1,
            per_entry == 1 || per_entry == 2,
            major == MAJOR_MAP ==> per_entry == 2,
            major == MAJOR_ARRAY ==> per_entry == 1,
            total == per_entry as nat * arg as nat,
            skip(b@, p as int, depth as nat) == skip_n(b@, q as int, total, (depth - 1) as nat),
            p < q <= pos <= b@.len(),
            skip_n(b@, q as int, total, (depth - 1) as nat) == skip_n(
                b@,
                pos as int,
                (per_entry as nat * (arg - i) as nat) as nat,
                (depth - 1) as nat,
            ),
        decreases arg - i,
    {
        let ghost left: nat = per_entry as nat * (arg - i) as nat;
        assert(left >= per_entry) by (nonlinear_arith)
            requires
                left == per_entry as nat * (arg - i) as nat,
                per_entry >= 1,
                i < arg,
        ;
        match skip_item(b, pos, depth - 1) {
            Some(next) => {
                assert(skip_n(b@, pos as int, left, (depth - 1) as nat) == skip_n(
                    b@,
                    next as int,
                    (left - 1) as nat,
                    (depth - 1) as nat,
                ));
                pos = next;
            },
            None => {
                assert(skip_n(b@, pos as int, left, (depth - 1) as nat) is None);
                return None;
            },
        }
        if per_entry == 2 {
            match skip_item(b, pos, depth - 1) {
                Some(next) => {
                    assert(skip_n(b@, pos as int, (left - 1) as nat, (depth - 1) as nat) == skip_n(
                        b@,
                        next as int,
                        (left - 2) as nat,
                        (depth - 1) as nat,
                    ));
                    pos = next;
                },
                None => {
                    assert(skip_n(b@, pos as int, (left - 1) as nat, (depth - 1) as nat) is None);
                    return None;
                },
            }
        }
        i = i + 1;
        assert(per_entry as nat * (arg - i) as nat == left - per_entry) by (nonlinear_arith)
            requires
                left == per_entry as nat * (arg - (i - 1)) as nat,
                i <= arg,
        ;
    }
    assert(per_entry as nat * (arg - i) as nat == 0);
    assert(skip(b@, p as int, depth as nat) == skip_n(b@, q as int, total, (depth - 1) as nat));
    Some(pos)
}

/// Reads the string item of major type `major` at `p`: the range of its content and
/// the position after it.
pub fn read_string(b: &[u8], p: usize, major: u8) -> (r: Option<(usize, usize)>)
    ensures
        match string_item(b@, p as int, major) {
            Some((content, q)) => r matches Some((start, end)) && end == q && start <= end
                <= b@.len() && b@.subrange(start as int, end as int) == content,
            None => r is None,
        },
{
    let (m, arg, q) = match read_head(b, p) {
        Some(h) => h,
        None => return None,
    };
    if m != major || arg as u128 > (b.len() - q) as u128 {
        return None;
    }
    Some((q, q + arg as usize))
}

/// Reads the string item of major type `major` at `p`: a copy of its content and the
/// position after it.
pub fn read_string_copy(b: &[u8], p: usize, major: u8) -> (r: Option<(Vec<u8>, usize)>)
    ensures
        match string_item(b@, p as int, major) {
            Some((content, q)) => r matches Some((v, end)) && end == q && v@ == content && p < end
                <= b@.len(),
            None => r is None,
        },
{
    match read_string(b, p, major) {
        Some((start, end)) => Some((slice_to_vec(slice_subrange(b, start, end)), end)),
        None => None,
    }
}

/// Reads the integer item at `p`: its value and the position after it.
pub fn read_int(b: &[u8], p: usize) -> (r: Option<(i128, usize)>)
    ensures
        r is Some <==> int_item(b@, p as int) is Some,
        r matches Some((v, q)) ==> int_item(b@, p as int) == Some((v as int, q as int)) && p < q
            <= b@.len(),
{
    let (m, arg, q) = match read_head(b, p) {
        Some(h) => h,
        None => return None,
    };
    if m == MAJOR_UNSIGNED {
        Some((arg as i128, q))
    } else if m == MAJOR_NEGATIVE {
        Some((-1 - arg as i128, q))
    } else {
        None
    }
}

/// Relies on `String::from_utf8`: it succeeds exactly on valid UTF-8, and the string
/// then holds the characters that the bytes encode.
#[verifier::external_body]
fn string_from_utf8(bytes: Vec<u8>) -> (r: Option<String>)
    ensures
        r is Some <==> valid_utf8(bytes@),
        r matches Some(s) ==> s@ == decode_utf8(bytes@),
{
    String::from_utf8(bytes).ok()
}

/// Reads the text item at `p`: its string and the position after it.
pub fn read_text(b: &[u8], p: usize) -> (r: Option<(String, usize)>)
    ensures
        r is Some <==> text_item(b@, p as int) is Some,
        r matches Some((t, q)) ==> text_item(b@, p as int) == Some((t@, q as int)) && p < q
            <= b@.len(),
{
    proof {
        if let Some((_, _, q)) = head(b@, p as int) {
            assert(p < q);
        }
    }
    let (content, end) = match read_string_copy(b, p, MAJOR_TEXT) {
        Some(c) => c,
        None => return None,
    };
    match string_from_utf8(content) {
        Some(t) => Some((t, end)),
        None => None,
    }
}

/// Reads the text or byte-string item at `p`, which must hold UTF-8: its string and the
/// position after it.
pub fn read_utf8(b: &[u8], p: usize) -> (r: Option<(String, usize)>)
    ensures
        r is Some <==> utf8_item(b@, p as int) is Some,
        r matches Some((t, q)) ==> utf8_item(b@, p as int) == Some((t@, q as int)) && p < q
            <= b@.len(),
{
    let (m, _, _) = match read_head(b, p) {
        Some(h) => h,
        None => return None,
    };
    if m != MAJOR_BYTES {
        return read_text(b, p);
    }
    let (content, end) = match read_string_copy(b, p, MAJOR_BYTES) {
        Some(c) => c,
        None => return None,
    };
    match string_from_utf8(content) {
        Some(t) => Some((t, end)),
        None => None,
    }
}

fn skip_chunks_exec(b: &[u8], p: usize, major: u8) -> (r: Option<usize>)
    requires
        p <= b@.len(),
    ensures
        r is Some <==> skip_chunks(b@, p as int, major) is Some,
        r matches Some(e) ==> skip_chunks(b@, p as int, major) == Some(e as int) && p < e <= b@.len(),
{
    proof {
        lemma_skip_chunks_bound(b@, p as int, major);
    }
    let mut pos = p;
    loop
        invariant
            p <= pos <= b@.len(),
            skip_chunks(b@, p as int, major) == skip_chunks(b@, pos as int, major),
        decreases b@.len() - pos,
    {
        if pos >= b.len() {
            return None;
        }
        if b[pos] == BREAK {
            return Some(pos + 1);
        }
        match read_string(b, pos, major) {
            Some((_, e)) => {
                pos = e;
            },
            None => return None,
        }
    }
}

/// Counts the items (key-value pairs where `pairs`) from `p` up to a break byte: the
/// count and the position after the break.
pub fn count_indefinite(b: &[u8], p: usize, pairs: bool, depth: usize) -> (r: Option<(u64, usize)>)
    requires
        p <= b@.len(),
    ensures
        r is Some <==> indefinite_count(b@, p as int, pairs, depth as nat, 0) is Some,
        r matches Some((c, e)) ==> indefinite_count(b@, p as int, pairs, depth as nat, 0) == Some(
            (c as nat, e as int),
        ) && p < e <= b@.len(),
    decreases depth, 1nat,
{
    proof {
        lemma_count_bound(b@, p as int, pairs, depth as nat, 0);
    }
    let mut pos = p;
    let mut count: u64 = 0;
    loop
        invariant
            p <= pos <= b@.len(),
            count <= pos - p,
            b@.len() == b.len(),
            indefinite_count(b@, p as int, pairs, depth as nat, 0) == indefinite_count(
                b@,
                pos as int,
                pairs,
                depth as nat,
                count as nat,
            ),
        decreases b@.len() - pos,
    {
        if pos >= b.len() {
            return None;
        }
        if b[pos] == BREAK {
            return Some((count, pos + 1));
        }
        let q = match skip_item(b, pos, depth) {
            Some(q) => q,
            None => return None,
        };
        let r = if pairs {
            match skip_item(b, q, depth) {
                Some(r) => r,
                None => return None,
            }
        } else {
            q
        };
        pos = r;
        count = count + 1;
    }
}

/// Reads the header of the array or map (by `major`) at `p`: how many items (pairs, for
/// a map) it holds, where they start, and whether a break byte ends it.
pub fn read_container(b: &[u8], p: usize, major: u8) -> (r: Option<(u64, usize, bool)>)
    ensures
        r is Some <==> container(b@, p as int, major) is Some,
        r matches Some((n, q, indefinite)) ==> container(b@, p as int, major) == Some(
            (n as nat, q as int, indefinite),
        ) && p < q <= b@.len(),
{
    if p < b.len() && b[p] % 32 == 31 {
        if b[p] / 32 != major {
            return None;
        }
        return match count_indefinite(b, p + 1, major == MAJOR_MAP, MAX_DEPTH) {
            Some((c, _)) => Some((c, p + 1, true)),
            None => None,
        };
    }
    match read_head(b, p) {
        Some((m, a, q)) => if m == major {
            Some((a, q, false))
        } else {
            None
        },
        None => None,
    }
}

/// Where a container whose entries end at `e` ends: after its break byte, if it has one.
pub fn read_close(b: &[u8], e: usize, indefinite: bool) -> (r: Option<usize>)
    requires
        e <= b@.len(),
    ensures
        r is Some <==> close(b@, e as int, indefinite) is Some,
        r matches Some(f) ==> close(b@, e as int, indefinite) == Some(f as int) && e <= f <= b@.len(),
{
    if !indefinite {
        Some(e)
    } else if e < b.len() && b[e] == BREAK {
        Some(e + 1)
    } else {
        None
    }
}

} // verus!
