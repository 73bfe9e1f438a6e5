//! Base64 with the standard alphabet and padding (RFC 4648, section 4), as a
//! mathematical function on byte sequences, its inverse, and the call into the
//! `base64` crate that computes it.

use vstd::prelude::*;

verus! {

/// The character `=`, which fills a final group up to four characters.
pub const PAD: u8 = 61;

/// The character that stands for the six-bit value `v`:
/// `A`-`Z`, `a`-`z`, `0`-`9`, `+`, `/`.
pub open spec fn symbol(v: int) -> u8
    recommends
        0 <= v < 64,
{
    if v < 26 {
        (v + 65) as u8
    } else if v < 52 {
        (v + 71) as u8
    } else if v < 62 {
        (v - 4) as u8
    } else if v == 62 {
        43
    } else {
        47
    }
}

/// The six-bit value that the character `c` stands for, if it is one of the
/// sixty-four characters of the alphabet.
pub open spec fn symbol_value(c: u8) -> Option<int> {
    if 65 <= c <= 90 {
        Some(c - 65)
    } else if 97 <= c <= 122 {
        Some(c - 71)
    } else if 48 <= c <= 57 {
        Some(c + 4)
    } else if c == 43 {
        Some(62)
    } else if c == 47 {
        Some(63)
    } else {
        None
    }
}

/// The 24-bit number made of the one to three bytes of `group`, missing bytes
/// counting as zero.
pub open spec fn group_value(group: Seq<u8>) -> int
    recommends
        1 <= group.len() <= 3,
{
    group[0] as int * 65536 + (if group.len() > 1 {
        group[1] as int
    } else {
        0
    }) * 256 + (if group.len() > 2 {
        group[2] as int
    } else {
        0
    })
}

/// The four characters for a group of one to three bytes.
pub open spec fn encode_group(group: Seq<u8>) -> Seq<u8>
    recommends
        1 <= group.len() <= 3,
{
    let v = group_value(group);
    seq![
        symbol(v / 262144),
        symbol(v / 4096 % 64),
        if group.len() > 1 {
            symbol(v / 64 % 64)
        } else {
            PAD
        },
        if group.len() > 2 {
            symbol(v % 64)
        } else {
            PAD
        },
    ]
}

/// The base64 text of `data`: every three bytes become four characters, and a
/// last group of one or two bytes is padded with `=`.
pub open spec fn base64_text(data: Seq<u8>) -> Seq<u8>
    decreases data.len(),
{
    if data.len() == 0 {
        Seq::empty()
    } else if data.len() <= 3 {
        encode_group(data)
    } else {
        encode_group(data.take(3)) + base64_text(data.skip(3))
    }
}

/// The length of the base64 text of `n` bytes.
pub open spec fn encoded_len(n: nat) -> nat {
    4 * ((n + 2) / 3)
}

/// The one to three bytes that four characters stand for, or `None` if they
/// are no group of base64 text.
pub open spec fn decode_group(quad: Seq<u8>) -> Option<Seq<u8>>
    recommends
        quad.len() == 4,
{
    match (symbol_value(quad[0]), symbol_value(quad[1])) {
        (Some(a), Some(b)) => {
            let first = (a * 4 + b / 16) as u8;
            if quad[2] == PAD && quad[3] == PAD {
                Some(seq![first])
            } else {
                match symbol_value(quad[2]) {
                    Some(c) => {
                        let second = (b % 16 * 16 + c / 4) as u8;
                        if quad[3] == PAD {
                            Some(seq![first, second])
                        } else {
                            match symbol_value(quad[3]) {
                                Some(d) => Some(seq![first, second, (c % 4 * 64 + d) as u8]),
                                None => None,
                            }
                        }
                    },
                    None => None,
                }
            }
        },
        _ => None,
    }
}

/// The bytes that a base64 text stands for, or `None` if it is malformed:
/// a length that is no multiple of four, a character outside the alphabet, or
/// padding anywhere but at the end.
pub open spec fn base64_decode(text: Seq<u8>) -> Option<Seq<u8>>
    decreases text.len(),
{
    if text.len() == 0 {
        Some(Seq::empty())
    } else if text.len() < 4 {
        None
    } else {
        match decode_group(text.take(4)) {
            None => None,
            Some(head) => if text.len() == 4 {
                Some(head)
            } else if head.len() < 3 {
                None
            } else {
                match base64_decode(text.skip(4)) {
                    Some(rest) => Some(head + rest),
                    None => None,
                }
            },
        }
    }
}

/// Every six-bit value is recovered from its character, and no such character
/// is the padding character.
pub proof fn lemma_symbol_value(v: int)
    requires
        0 <= v < 64,
    ensures
        symbol_value(symbol(v)) == Some(v),
        symbol(v) != PAD,
{
}

/// The four six-bit digits of a 24-bit number give its three bytes back.
proof fn lemma_sextets(g0: int, g1: int, g2: int)
    requires
        0 <= g0 < 256,
        0 <= g1 < 256,
        0 <= g2 < 256,
    ensures
        ({
            let v = g0 * 65536 + g1 * 256 + g2;
            let a = v / 262144;
            let b = v / 4096 % 64;
            let c = v / 64 % 64;
            let d = v % 64;
            &&& 0 <= a < 64
            &&& 0 <= b < 64
            &&& 0 <= c < 64
            &&& 0 <= d < 64
            &&& a * 4 + b / 16 == g0
            &&& b % 16 * 16 + c / 4 == g1
            &&& c % 4 * 64 + d == g2
        }),
{
    let v = g0 * 65536 + g1 * 256 + g2;
    assert(v / 262144 == g0 / 4);
    assert(v / 4096 == g0 * 16 + g1 / 16);
    assert(v / 64 == g0 * 1024 + g1 * 4 + g2 / 64);
    assert(v / 4096 % 64 == g0 % 4 * 16 + g1 / 16);
    assert(v / 64 % 64 == g1 % 16 * 4 + g2 / 64);
    assert(v % 64 == g2 % 64);
}

/// A group of one to three bytes is recovered from its four characters.
pub proof fn lemma_group_round_trip(group: Seq<u8>)
    requires
        1 <= group.len() <= 3,
    ensures
        encode_group(group).len() == 4,
        decode_group(encode_group(group)) == Some(group),
{
    let g0 = group[0] as int;
    let g1 = if group.len() > 1 {
        group[1] as int
    } else {
        0
    };
    let g2 = if group.len() > 2 {
        group[2] as int
    } else {
        0
    };
    let v = group_value(group);
    assert(v == g0 * 65536 + g1 * 256 + g2);
    lemma_sextets(g0, g1, g2);
    lemma_symbol_value(v / 262144);
    lemma_symbol_value(v / 4096 % 64);
    lemma_symbol_value(v / 64 % 64);
    lemma_symbol_value(v % 64);
    assert(decode_group(encode_group(group)).unwrap() =~= group);
}

/// The base64 text of `n` bytes has `4 * ceil(n / 3)` characters.
pub proof fn lemma_base64_len(data: Seq<u8>)
    ensures
        base64_text(data).len() == encoded_len(data.len()),
    decreases data.len(),
{
    if data.len() > 3 {
        lemma_base64_len(data.skip(3));
    }
}

/// Decoding undoes encoding: `base64_decode(base64_text(data)) == Some(data)`
/// for every byte sequence `data`.
pub proof fn lemma_round_trip(data: Seq<u8>)
    ensures
        base64_decode(base64_text(data)) == Some(data),
    decreases data.len(),
{
    if data.len() == 0 {
    } else if data.len() <= 3 {
        lemma_group_round_trip(data);
        assert(base64_text(data).take(4) =~= base64_text(data));
    } else {
        let head = data.take(3);
        let tail = data.skip(3);
        lemma_group_round_trip(head);
        lemma_round_trip(tail);
        lemma_base64_len(tail);
        let text = base64_text(data);
        assert(text.take(4) =~= encode_group(head));
        assert(text.skip(4) =~= base64_text(tail));
        assert(head + tail =~= data);
    }
}

/// Text made of whole groups can be cut after any of them: where `front` has a
/// multiple of three bytes, the text of `front + back` is the text of `front`
/// followed by the text of `back`.
pub proof fn lemma_base64_concat(front: Seq<u8>, back: Seq<u8>)
    requires
        front.len() % 3 == 0,
    ensures
        base64_text(front + back) == base64_text(front) + base64_text(back),
    decreases front.len(),
{
    if front.len() == 0 {
        assert(front + back =~= back);
        assert(base64_text(front) + base64_text(back) =~= base64_text(back));
    } else {
        let whole = front + back;
        let rest = front.skip(3);
        assert(whole.take(3) =~= front.take(3));
        assert(whole.skip(3) =~= rest + back);
        lemma_base64_concat(rest, back);
        if front.len() == 3 {
            assert(front.take(3) =~= front);
            assert(base64_text(rest) =~= Seq::<u8>::empty());
            if back.len() == 0 {
                assert(whole =~= front);
                assert(base64_text(front) + base64_text(back) =~= base64_text(front));
            } else {
                assert(base64_text(whole) =~= base64_text(front) + base64_text(back));
            }
        } else {
            assert(base64_text(whole) =~= base64_text(front) + base64_text(back));
        }
    }
}

/// The error of `base64::Engine::encode_slice`.
#[verifier::external_type_specification]
#[verifier::external_body]
pub struct ExEncodeSliceError(base64::EncodeSliceError);

/// Calls `base64::Engine::encode_slice` on the `STANDARD` engine, which has
/// the alphabet of RFC 4648 and pads. The contract claims that the call
/// writes the base64 text of `input` to the front of `output`, leaves the rest
/// of `output` as it was and returns the length of the text; and that it fails,
/// with `output` untouched, exactly when `output` is shorter than the text.
/// The crate panics where the length of the text does not fit in `usize`:
/// `requires` leaves those inputs out.
#[verifier::external_body]
pub(crate) fn encode_slice(input: &[u8], output: &mut Vec<u8>) -> (written: Result<
    usize,
    base64::EncodeSliceError,
>)
    requires
        encoded_len(input@.len()) <= usize::MAX,
    ensures
        match written {
            Ok(n) => {
                &&& n == base64_text(input@).len()
                &&& n <= old(output)@.len()
                &&& final(output)@ == base64_text(input@) + old(output)@.skip(n as int)
            },
            Err(_) => {
                &&& old(output)@.len() < base64_text(input@).len()
                &&& final(output)@ == old(output)@
            },
        },
{
    base64::Engine::encode_slice(
        &base64::engine::general_purpose::STANDARD,
        input,
        output.as_mut_slice(),
    )
}

} // verus!
