//! Payloads travel as text: the standard base64 alphabet with padding.
//!
//! Three bytes make a number of 24 bits, which is written as four symbols of
//! six bits each, the highest first. A last group of one or two bytes is
//! filled up with zero bits and written as two or three symbols and padding.
//! Only the text that encoding gives is taken back: a symbol outside the
//! alphabet, padding out of place or filling bits that are not zero make the
//! text no encoding at all.

use vstd::prelude::*;

verus! {

/// The padding character, `=`.
pub const PAD: u8 = 61;

/// The character for a value of six bits.
pub open spec fn symbol(v: int) -> u8 {
    if v < 26 {
        (65 + v) as u8
    } else if v < 52 {
        (71 + v) as u8
    } else if v < 62 {
        (v - 4) as u8
    } else if v == 62 {
        43
    } else {
        47
    }
}

/// The value of a character of the alphabet, or `None` for any other.
pub open spec fn value_of(c: u8) -> Option<int> {
    if 65 <= c <= 90 {
        Some(c - 65)
    } else if 97 <= c <= 122 {
        Some(c - 71)
    } else if 48 <= c <= 57 {
        Some(c + 4)
    } else if c == 43 {
        Some(62)
    } else if c == 47 {
        Some(63)
    } else {
        None
    }
}

/// The first symbol of a group: the high six bits of the first byte.
#[verifier::opaque]
pub open spec fn sextet0(b0: u8) -> int {
    b0 as int / 4
}

/// The second symbol of a group: the low two bits of the first byte, then
/// the high four bits of the second.
#[verifier::opaque]
pub open spec fn sextet1(b0: u8, b1: u8) -> int {
    (b0 as int % 4) * 16 + b1 as int / 16
}

/// The third symbol of a group: the low four bits of the second byte, then
/// the high two bits of the third.
#[verifier::opaque]
pub open spec fn sextet2(b1: u8, b2: u8) -> int {
    (b1 as int % 16) * 4 + b2 as int / 64
}

/// The fourth symbol of a group: the low six bits of the third byte.
#[verifier::opaque]
pub open spec fn sextet3(b2: u8) -> int {
    b2 as int % 64
}

/// The text for a full group of three bytes.
pub open spec fn group3(b0: u8, b1: u8, b2: u8) -> Seq<u8> {
    seq![
        symbol(sextet0(b0)),
        symbol(sextet1(b0, b1)),
        symbol(sextet2(b1, b2)),
        symbol(sextet3(b2)),
    ]
}

/// The text for a last group of two bytes: the bits that a third byte would
/// give are zero.
pub open spec fn group2(b0: u8, b1: u8) -> Seq<u8> {
    seq![symbol(sextet0(b0)), symbol(sextet1(b0, b1)), symbol(sextet2(b1, 0)), PAD]
}

/// The text for a last group of one byte: the bits that a second byte would
/// give are zero.
pub open spec fn group1(b0: u8) -> Seq<u8> {
    seq![symbol(sextet0(b0)), symbol(sextet1(b0, 0)), PAD, PAD]
}

/// The base64 text of `bytes`.
pub open spec fn encoded(bytes: Seq<u8>) -> Seq<u8>
    decreases bytes.len(),
{
    if bytes.len() == 0 {
        Seq::empty()
    } else if bytes.len() == 1 {
        group1(bytes[0])
    } else if bytes.len() == 2 {
        group2(bytes[0], bytes[1])
    } else {
        group3(bytes[0], bytes[1], bytes[2]) + encoded(bytes.skip(3))
    }
}

/// A symbol is never the padding character, and its value is read back.
pub proof fn lemma_symbol(v: int)
    requires
        0 <= v < 64,
    ensures
        value_of(symbol(v)) == Some(v),
        symbol(v) != PAD,
{
}

/// A character that has a value is the symbol of that value.
pub proof fn lemma_value(c: u8)
    requires
        value_of(c).is_some(),
    ensures
        0 <= value_of(c).unwrap() < 64,
        symbol(value_of(c).unwrap()) == c,
        c != PAD,
{
}

/// Every sextet is a value of six bits.
pub proof fn lemma_sextet_ranges(b0: u8, b1: u8, b2: u8)
    ensures
        0 <= sextet0(b0) < 64,
        0 <= sextet1(b0, b1) < 64,
        0 <= sextet2(b1, b2) < 64,
        0 <= sextet3(b2) < 64,
        sextet1(b0, 0) % 16 == 0,
        sextet2(b1, 0) % 4 == 0,
{
    reveal(sextet0);
    reveal(sextet1);
    reveal(sextet2);
    reveal(sextet3);
}

/// The sextets tell the bytes: the first two tell the first byte, the next
/// one adds the second byte, the last one the third.
pub proof fn lemma_sextets_tell_bytes(a0: u8, a1: u8, a2: u8, b0: u8, b1: u8, b2: u8)
    requires
        sextet0(a0) == sextet0(b0),
        sextet1(a0, a1) == sextet1(b0, b1),
    ensures
        a0 == b0,
        sextet2(a1, a2) == sextet2(b1, b2) ==> a1 == b1,
        sextet2(a1, a2) == sextet2(b1, b2) && sextet3(a2) == sextet3(b2) ==> a2 == b2,
{
    reveal(sextet0);
    reveal(sextet1);
    reveal(sextet2);
    reveal(sextet3);
    let x0: int = a0 as int;
    let y0: int = b0 as int;
    assert(x0 == (x0 / 4) * 4 + x0 % 4);
    assert(y0 == (y0 / 4) * 4 + y0 % 4);
    let x1: int = a1 as int;
    let y1: int = b1 as int;
    assert(x1 == (x1 / 16) * 16 + x1 % 16);
    assert(y1 == (y1 / 16) * 16 + y1 % 16);
    let x2: int = a2 as int;
    let y2: int = b2 as int;
    assert(x2 == (x2 / 64) * 64 + x2 % 64);
    assert(y2 == (y2 / 64) * 64 + y2 % 64);
}

/// The bytes that four values of six bits stand for have those values as
/// their sextets.
pub proof fn lemma_bytes_of_sextets(v0: int, v1: int, v2: int, v3: int)
    requires
        0 <= v0 < 64,
        0 <= v1 < 64,
        0 <= v2 < 64,
        0 <= v3 < 64,
    ensures
        0 <= v0 * 4 + v1 / 16 < 256,
        0 <= (v1 % 16) * 16 + v2 / 4 < 256,
        0 <= (v2 % 4) * 64 + v3 < 256,
        sextet0((v0 * 4 + v1 / 16) as u8) == v0,
        sextet1((v0 * 4 + v1 / 16) as u8, ((v1 % 16) * 16 + v2 / 4) as u8) == v1,
        sextet2(((v1 % 16) * 16 + v2 / 4) as u8, ((v2 % 4) * 64 + v3) as u8) == v2,
        sextet3(((v2 % 4) * 64 + v3) as u8) == v3,
        v1 % 16 == 0 ==> sextet1((v0 * 4 + v1 / 16) as u8, 0) == v1,
        v2 % 4 == 0 ==> sextet2(((v1 % 16) * 16 + v2 / 4) as u8, 0) == v2,
{
    reveal(sextet0);
    reveal(sextet1);
    reveal(sextet2);
    reveal(sextet3);
    let b0: int = v0 * 4 + v1 / 16;
    let b1: int = (v1 % 16) * 16 + v2 / 4;
    let b2: int = (v2 % 4) * 64 + v3;
    assert(b0 / 4 == v0 && b0 % 4 == v1 / 16);
    assert(b1 / 16 == v1 % 16 && b1 % 16 == v2 / 4);
    assert(b2 / 64 == v2 % 4 && b2 % 64 == v3);
    assert(v1 == (v1 / 16) * 16 + v1 % 16);
    assert(v2 == (v2 / 4) * 4 + v2 % 4);
}

/// The text is four characters for every three bytes begun.
pub proof fn lemma_encoded_len(bytes: Seq<u8>)
    ensures
        encoded(bytes).len() == 4 * ((bytes.len() + 2) / 3),
    decreases bytes.len(),
{
    if bytes.len() >= 3 {
        lemma_encoded_len(bytes.skip(3));
    }
}

/// Behind whole groups the text goes on as if begun anew.
pub proof fn lemma_encoded_append(head: Seq<u8>, tail: Seq<u8>)
    requires
        head.len() % 3 == 0,
    ensures
        encoded(head + tail) == encoded(head) + encoded(tail),
    decreases head.len(),
{
    if head.len() == 0 {
        assert(head + tail =~= tail);
        assert(encoded(head) + encoded(tail) =~= encoded(tail));
    } else {
        let all = head + tail;
        assert(all.skip(3) =~= head.skip(3) + tail);
        lemma_encoded_append(head.skip(3), tail);
        assert(encoded(all) =~= encoded(head) + encoded(tail));
    }
}

/// The text of three bytes alone is their group.
proof fn lemma_encoded_three(b0: u8, b1: u8, b2: u8)
    ensures
        encoded(seq![b0, b1, b2]) == group3(b0, b1, b2),
{
    let group = seq![b0, b1, b2];
    assert(group.skip(3) =~= Seq::<u8>::empty());
    assert(encoded(group.skip(3)) =~= Seq::<u8>::empty());
    assert(encoded(group) =~= group3(b0, b1, b2) + encoded(group.skip(3)));
    assert(encoded(group) =~= group3(b0, b1, b2));
}

/// The four characters that stand for the group of bytes that begins at
/// `3 * q`.
pub open spec fn group_at(bytes: Seq<u8>, q: int) -> Seq<u8> {
    if 3 * q + 3 <= bytes.len() {
        group3(bytes[3 * q], bytes[3 * q + 1], bytes[3 * q + 2])
    } else if 3 * q + 2 == bytes.len() {
        group2(bytes[3 * q], bytes[3 * q + 1])
    } else {
        group1(bytes[3 * q])
    }
}

/// Where the groups stand in the text.
pub proof fn lemma_group_at(bytes: Seq<u8>, q: int)
    requires
        0 <= q,
        3 * q < bytes.len(),
    ensures
        4 * q + 4 <= encoded(bytes).len(),
        encoded(bytes).subrange(4 * q, 4 * q + 4) == group_at(bytes, q),
    decreases q,
{
    lemma_encoded_len(bytes);
    if q == 0 {
        assert(encoded(bytes).subrange(0, 4) =~= group_at(bytes, 0));
    } else {
        let rest = bytes.skip(3);
        lemma_group_at(rest, q - 1);
        lemma_encoded_len(rest);
        assert(encoded(bytes).subrange(4 * q, 4 * q + 4) =~= encoded(rest).subrange(
            4 * (q - 1),
            4 * (q - 1) + 4,
        ));
        assert(group_at(bytes, q) == group_at(rest, q - 1));
    }
}

/// Two values of six bits with one symbol are one value.
proof fn lemma_symbol_injective(v: int, w: int)
    requires
        0 <= v < 64,
        0 <= w < 64,
        symbol(v) == symbol(w),
    ensures
        v == w,
{
    lemma_symbol(v);
    lemma_symbol(w);
}

/// No two byte strings have the same text.
pub proof fn lemma_encoded_injective(a: Seq<u8>, b: Seq<u8>)
    requires
        encoded(a) == encoded(b),
    ensures
        a == b,
    decreases a.len(),
{
    lemma_encoded_len(a);
    lemma_encoded_len(b);
    if a.len() == 0 || b.len() == 0 {
        assert(a =~= b);
    } else {
        lemma_group_at(a, 0);
        lemma_group_at(b, 0);
        let ga = group_at(a, 0);
        let gb = group_at(b, 0);
        assert(ga == gb);
        assert(ga[0] == gb[0] && ga[1] == gb[1] && ga[2] == gb[2] && ga[3] == gb[3]);
        let a1: u8 = if a.len() >= 2 {
            a[1]
        } else {
            0
        };
        let a2: u8 = if a.len() >= 3 {
            a[2]
        } else {
            0
        };
        let b1: u8 = if b.len() >= 2 {
            b[1]
        } else {
            0
        };
        let b2: u8 = if b.len() >= 3 {
            b[2]
        } else {
            0
        };
        lemma_sextet_ranges(a[0], a1, a2);
        lemma_sextet_ranges(b[0], b1, b2);
        lemma_symbol(sextet2(a1, a2));
        lemma_symbol(sextet3(a2));
        lemma_symbol(sextet2(b1, b2));
        lemma_symbol(sextet3(b2));
        // Padding stands in both texts or in neither: the groups are of one size.
        assert(a.len() >= 3 <==> b.len() >= 3);
        assert(a.len() == 1 <==> b.len() == 1);
        lemma_symbol_injective(sextet0(a[0]), sextet0(b[0]));
        lemma_symbol_injective(sextet1(a[0], a1), sextet1(b[0], b1));
        if a.len() >= 2 {
            lemma_symbol_injective(sextet2(a1, a2), sextet2(b1, b2));
        }
        if a.len() >= 3 {
            lemma_symbol_injective(sextet3(a2), sextet3(b2));
        }
        lemma_sextets_tell_bytes(a[0], a1, a2, b[0], b1, b2);
        if a.len() >= 3 {
            assert(encoded(a).skip(4) =~= encoded(a.skip(3)));
            assert(encoded(b).skip(4) =~= encoded(b.skip(3)));
            lemma_encoded_injective(a.skip(3), b.skip(3));
            assert(a =~= seq![a[0], a[1], a[2]] + a.skip(3));
            assert(b =~= seq![b[0], b[1], b[2]] + b.skip(3));
        } else {
            assert(a =~= b);
        }
    }
}

fn symbol_for(v: u8) -> (c: u8)
    requires
        v < 64,
    ensures
        c == symbol(v as int),
{
    if v < 26 {
        65 + v
    } else if v < 52 {
        71 + v
    } else if v < 62 {
        v - 4
    } else if v == 62 {
        43
    } else {
        47
    }
}

fn value_for(c: u8) -> (v: Option<u8>)
    ensures
        match value_of(c) {
            Some(x) => v == Some(x as u8) && 0 <= x < 64,
            None => v.is_none(),
        },
{
    if 65 <= c && c <= 90 {
        Some(c - 65)
    } else if 97 <= c && c <= 122 {
        Some(c - 71)
    } else if 48 <= c && c <= 57 {
        Some(c + 4)
    } else if c == 43 {
        Some(62)
    } else if c == 47 {
        Some(63)
    } else {
        None
    }
}

/// The four symbols of a group of three bytes.
fn symbols_of(b0: u8, b1: u8, b2: u8) -> (s: (u8, u8, u8, u8))
    ensures
        s.0 == symbol(sextet0(b0)),
        s.1 == symbol(sextet1(b0, b1)),
        s.2 == symbol(sextet2(b1, b2)),
        s.3 == symbol(sextet3(b2)),
{
    proof {
        reveal(sextet0);
        reveal(sextet1);
        reveal(sextet2);
        reveal(sextet3);
    }
    (
        symbol_for(b0 / 4),
        symbol_for((b0 % 4) * 16 + b1 / 16),
        symbol_for((b1 % 16) * 4 + b2 / 64),
        symbol_for(b2 % 64),
    )
}

/// The three bytes of a group of four values of six bits.
fn bytes_of(v0: u8, v1: u8, v2: u8, v3: u8) -> (b: (u8, u8, u8))
    requires
        v0 < 64,
        v1 < 64,
        v2 < 64,
        v3 < 64,
    ensures
        sextet0(b.0) == v0,
        sextet1(b.0, b.1) == v1,
        sextet2(b.1, b.2) == v2,
        sextet3(b.2) == v3,
        v1 % 16 == 0 ==> sextet1(b.0, 0) == v1,
        v2 % 4 == 0 ==> sextet2(b.1, 0) == v2,
{
    proof {
        lemma_bytes_of_sextets(v0 as int, v1 as int, v2 as int, v3 as int);
    }
    (v0 * 4 + v1 / 16, (v1 % 16) * 16 + v2 / 4, (v2 % 4) * 64 + v3)
}

/// Writes `bytes` as base64 text.
pub fn encode(bytes: &[u8]) -> (text: Vec<u8>)
    ensures
        text@ == encoded(bytes@),
{
    let len: usize = bytes.len();
    let mut text: Vec<u8> = Vec::new();
    let mut i: usize = 0;
    assert(bytes@.take(0) =~= Seq::<u8>::empty());
    while len - i >= 3
        invariant
            i <= len,
            len == bytes@.len(),
            i % 3 == 0,
            text@ == encoded(bytes@.take(i as int)),
        decreases len - i,
    {
        let s: (u8, u8, u8, u8) = symbols_of(bytes[i], bytes[i + 1], bytes[i + 2]);
        proof {
            let group = seq![bytes@[i as int], bytes@[i + 1], bytes@[i + 2]];
            assert(bytes@.take(i + 3) =~= bytes@.take(i as int) + group);
            lemma_encoded_append(bytes@.take(i as int), group);
            lemma_encoded_three(bytes@[i as int], bytes@[i + 1], bytes@[i + 2]);
        }
        let ghost before = text@;
        text.push(s.0);
        text.push(s.1);
        text.push(s.2);
        text.push(s.3);
        assert(text@ =~= before + group3(bytes@[i as int], bytes@[i + 1], bytes@[i + 2]));
        i = i + 3;
    }
    let ghost before = text@;
    if len - i == 2 {
        let s: (u8, u8, u8, u8) = symbols_of(bytes[i], bytes[i + 1], 0);
        proof {
            let group = seq![bytes@[i as int], bytes@[i + 1]];
            assert(bytes@ =~= bytes@.take(i as int) + group);
            lemma_encoded_append(bytes@.take(i as int), group);
        }
        text.push(s.0);
        text.push(s.1);
        text.push(s.2);
        text.push(PAD);
        assert(text@ =~= before + group2(bytes@[i as int], bytes@[i + 1]));
    } else if len - i == 1 {
        let s: (u8, u8, u8, u8) = symbols_of(bytes[i], 0, 0);
        proof {
            let group = seq![bytes@[i as int]];
            assert(bytes@ =~= bytes@.take(i as int) + group);
            lemma_encoded_append(bytes@.take(i as int), group);
        }
        text.push(s.0);
        text.push(s.1);
        text.push(PAD);
        text.push(PAD);
        assert(text@ =~= before + group1(bytes@[i as int]));
    } else {
        assert(bytes@.take(i as int) =~= bytes@);
    }
    text
}

/// What the text of some bytes holds in a group of four characters: symbols
/// throughout, or, in the last group only, padding behind two or three
/// symbols whose filling bits are zero.
pub open spec fn well_shaped(c0: u8, c1: u8, c2: u8, c3: u8, last: bool) -> bool {
    &&& value_of(c0).is_some()
    &&& value_of(c1).is_some()
    &&& c2 == PAD ==> c3 == PAD && last && value_of(c1).unwrap() % 16 == 0
    &&& c2 != PAD ==> value_of(c2).is_some()
    &&& c2 != PAD && c3 == PAD ==> last && value_of(c2).unwrap() % 4 == 0
    &&& c2 != PAD && c3 != PAD ==> value_of(c3).is_some()
}

/// Every group of four characters in the text of some bytes is well shaped.
proof fn lemma_group_shape(bytes: Seq<u8>, q: int)
    requires
        0 <= q,
        4 * q < encoded(bytes).len(),
    ensures
        4 * q + 4 <= encoded(bytes).len(),
        well_shaped(
            encoded(bytes)[4 * q],
            encoded(bytes)[4 * q + 1],
            encoded(bytes)[4 * q + 2],
            encoded(bytes)[4 * q + 3],
            4 * q + 4 == encoded(bytes).len(),
        ),
{
    lemma_encoded_len(bytes);
    lemma_group_at(bytes, q);
    let e = encoded(bytes);
    let part = e.subrange(4 * q, 4 * q + 4);
    assert(e[4 * q] == part[0]);
    assert(e[4 * q + 1] == part[1]);
    assert(e[4 * q + 2] == part[2]);
    assert(e[4 * q + 3] == part[3]);
    let b0: u8 = bytes[3 * q];
    let b1: u8 = if 3 * q + 2 <= bytes.len() {
        bytes[3 * q + 1]
    } else {
        0
    };
    let b2: u8 = if 3 * q + 3 <= bytes.len() {
        bytes[3 * q + 2]
    } else {
        0
    };
    lemma_sextet_ranges(b0, b1, b2);
    lemma_symbol(sextet0(b0));
    lemma_symbol(sextet1(b0, b1));
    lemma_symbol(sextet2(b1, b2));
    lemma_symbol(sextet3(b2));
}

/// Reads base64 text: the bytes whose text it is, or `None` where it is the
/// text of no bytes.
pub fn decode(text: &[u8]) -> (bytes: Option<Vec<u8>>)
    ensures
        bytes matches Some(b) ==> encoded(b@) == text@,
        bytes.is_none() ==> forall|b: Seq<u8>| #[trigger] encoded(b) != text@,
{
    let len: usize = text.len();
    if len % 4 != 0 {
        proof {
            assert forall|b: Seq<u8>| #[trigger] encoded(b) != text@ by {
                lemma_encoded_len(b);
            }
        }
        return None;
    }
    let mut bytes: Vec<u8> = Vec::new();
    let mut p: usize = 0;
    assert(text@.take(0) =~= Seq::<u8>::empty());
    while p < len
        invariant
            p <= len,
            len == text@.len(),
            len % 4 == 0,
            p % 4 == 0,
            bytes@.len() % 3 == 0,
            encoded(bytes@) == text@.take(p as int),
        decreases len - p,
    {
        let c0: u8 = text[p];
        let c1: u8 = text[p + 1];
        let c2: u8 = text[p + 2];
        let c3: u8 = text[p + 3];
        let last: bool = p + 4 == len;
        proof {
            assert forall|b: Seq<u8>| #[trigger] encoded(b) == text@ implies well_shaped(
                c0,
                c1,
                c2,
                c3,
                last,
            ) by {
                lemma_group_shape(b, p as int / 4);
            }
        }
        let shaped: Option<(u8, u8, u8, u8)> = read_group(c0, c1, c2, c3, last);
        let (v0, v1, v2, v3) = match shaped {
            Some(values) => values,
            None => {
                return None;
            },
        };
        let b: (u8, u8, u8) = bytes_of(v0, v1, v2, v3);
        let ghost before = bytes@;
        if c2 == PAD {
            proof {
                lemma_encoded_append(before, seq![b.0]);
                assert(text@ =~= text@.take(p as int) + group1(b.0));
            }
            bytes.push(b.0);
            assert(bytes@ =~= before + seq![b.0]);
            return Some(bytes);
        }
        if c3 == PAD {
            proof {
                lemma_encoded_append(before, seq![b.0, b.1]);
                assert(text@ =~= text@.take(p as int) + group2(b.0, b.1));
            }
            bytes.push(b.0);
            bytes.push(b.1);
            assert(bytes@ =~= before + seq![b.0, b.1]);
            return Some(bytes);
        }
        proof {
            lemma_encoded_append(before, seq![b.0, b.1, b.2]);
            lemma_encoded_three(b.0, b.1, b.2);
            assert(text@.take(p + 4) =~= text@.take(p as int) + group3(b.0, b.1, b.2));
        }
        bytes.push(b.0);
        bytes.push(b.1);
        bytes.push(b.2);
        assert(bytes@ =~= before + seq![b.0, b.1, b.2]);
        p = p + 4;
    }
    assert(text@.take(p as int) =~= text@);
    Some(bytes)
}

/// The values of a group of four characters, a padding character counted as
/// zero; `None` where the group is not well shaped.
fn read_group(c0: u8, c1: u8, c2: u8, c3: u8, last: bool) -> (values: Option<(u8, u8, u8, u8)>)
    ensures
        values.is_some() <==> well_shaped(c0, c1, c2, c3, last),
        values matches Some(v) ==> {
            &&& v.0 < 64 && v.1 < 64 && v.2 < 64 && v.3 < 64
            &&& c0 == symbol(v.0 as int)
            &&& c1 == symbol(v.1 as int)
            &&& c2 != PAD ==> c2 == symbol(v.2 as int)
            &&& c3 != PAD ==> c3 == symbol(v.3 as int)
            &&& c2 == PAD ==> v.1 % 16 == 0 && v.2 == 0 && v.3 == 0
            &&& c3 == PAD ==> v.2 % 4 == 0 && v.3 == 0
        },
{
    let v0: u8 = match value_for(c0) {
        Some(v) => v,
        None => {
            return None;
        },
    };
    let v1: u8 = match value_for(c1) {
        Some(v) => v,
        None => {
            return None;
        },
    };
    proof {
        lemma_value(c0);
        lemma_value(c1);
    }
    if c2 == PAD {
        if c3 != PAD || !last || v1 % 16 != 0 {
            return None;
        }
        return Some((v0, v1, 0, 0));
    }
    let v2: u8 = match value_for(c2) {
        Some(v) => v,
        None => {
            return None;
        },
    };
    proof {
        lemma_value(c2);
    }
    if c3 == PAD {
        if !last || v2 % 4 != 0 {
            return None;
        }
        return Some((v0, v1, v2, 0));
    }
    let v3: u8 = match value_for(c3) {
        Some(v) => v,
        None => {
            return None;
        },
    };
    proof {
        lemma_value(c3);
    }
    Some((v0, v1, v2, v3))
}

/// Reading what was written gives the bytes back: a reader that returns the
/// bytes whose text it was given returns `bytes` for the text of `bytes`.
pub proof fn lemma_round_trip(bytes: Seq<u8>, read: Option<Seq<u8>>)
    requires
        read matches Some(b) ==> encoded(b) == encoded(bytes),
        read.is_none() ==> forall|b: Seq<u8>| #[trigger] encoded(b) != encoded(bytes),
    ensures
        read == Some(bytes),
{
    let text = encoded(bytes);
    match read {
        Some(b) => {
            lemma_encoded_injective(b, bytes);
        },
        None => {
            assert(encoded(bytes) == text);
        },
    }
}

} // verus!
