//! Standard-alphabet base64 decoding as used for inline image payloads.

use vstd::prelude::*;

verus! {

/// Why a payload could not be decoded.
#[derive(Debug, Clone, Copy, PartialEq, Eq, Structural)]
pub enum Base64DecodeError {
    /// A byte outside the alphabet (and not padding or a line break).
    InvalidByte,
}

/// Bytes that carry no data and are passed over: padding and line breaks.
pub open spec fn is_skipped(b: u8) -> bool {
    b == 0x3d || b == 0x0a || b == 0x0d
}

/// The six-bit value of a base64 alphabet byte, or 64 for a byte outside the
/// alphabet.
pub open spec fn sextet_value(b: u8) -> u8 {
    if 0x41 <= b <= 0x5a {
        (b - 0x41) as u8
    } else if 0x61 <= b <= 0x7a {
        (b - 0x61 + 26) as u8
    } else if 0x30 <= b <= 0x39 {
        (b - 0x30 + 52) as u8
    } else if b == 0x2b {
        62
    } else if b == 0x2f {
        63
    } else {
        64
    }
}

/// The input holds no byte that is neither skipped nor in the alphabet.
pub open spec fn all_valid(input: Seq<u8>) -> bool {
    forall|i: int| 0 <= i < input.len() ==> is_skipped(#[trigger] input[i]) || sextet_value(input[i]) < 64
}

/// The six-bit groups that the input carries, in order.
pub open spec fn sextets(input: Seq<u8>) -> Seq<u8>
    decreases input.len(),
{
    if input.len() == 0 {
        Seq::empty()
    } else {
        let last = input.last();
        if is_skipped(last) {
            sextets(input.drop_last())
        } else {
            sextets(input.drop_last()).push(sextet_value(last))
        }
    }
}

/// Byte `i` of the decoding of the sextets `s`: every four sextets make
/// three bytes, and a trailing group of two or three sextets makes one or two.
pub open spec fn decoded_byte(s: Seq<u8>, i: int) -> u8 {
    let g = i / 3;
    let r = i % 3;
    if r == 0 {
        ((s[4 * g] << 2u8) | (s[4 * g + 1] >> 4u8)) as u8
    } else if r == 1 {
        (((s[4 * g + 1] & 15u8) << 4u8) | (s[4 * g + 2] >> 2u8)) as u8
    } else {
        (((s[4 * g + 2] & 3u8) << 6u8) | s[4 * g + 3]) as u8
    }
}

/// The bytes that `n` sextets decode to: all whole bytes, `6n / 8` of them.
pub open spec fn decode_sextets(s: Seq<u8>) -> Seq<u8> {
    Seq::new((6 * s.len() / 8) as nat, |i: int| decoded_byte(s, i))
}

/// What decoding yields: the decoded bytes, or the error when any byte is
/// outside the alphabet.
pub open spec fn spec_base64_decode(input: Seq<u8>) -> Result<Seq<u8>, Base64DecodeError> {
    if all_valid(input) {
        Ok(decode_sextets(sextets(input)))
    } else {
        Err(Base64DecodeError::InvalidByte)
    }
}

fn alphabet_value(b: u8) -> (v: u8)
    ensures
        v as int == (if sextet_value(b) < 64 { sextet_value(b) as int } else { 0xff }),
{
    if b >= 0x41 && b <= 0x5a {
        b - 0x41
    } else if b >= 0x61 && b <= 0x7a {
        b - 0x61 + 26
    } else if b >= 0x30 && b <= 0x39 {
        b - 0x30 + 52
    } else if b == 0x2b {
        62
    } else if b == 0x2f {
        63
    } else {
        0xff
    }
}

proof fn lemma_sextets_step(input: Seq<u8>, i: int)
    requires
        0 <= i < input.len(),
    ensures
        sextets(input.take(i + 1)) == (if is_skipped(input[i]) {
            sextets(input.take(i))
        } else {
            sextets(input.take(i)).push(sextet_value(input[i]))
        }),
{
    assert(input.take(i + 1).drop_last() =~= input.take(i));
}

proof fn lemma_step_first(a: u32, v: u32)
    requires
        a < 64,
        v < 64,
    ensures
        (((a << 6u32) | v) >> 4u32) as u8 == (((a as u8) << 2u8) | ((v as u8) >> 4u8)) as u8,
        ((a << 6u32) | v) & 15u32 == v & 15u32,
        ((a << 6u32) | v) < 4096,
{
    assert((((a << 6u32) | v) >> 4u32) as u8 == (((a as u8) << 2u8) | ((v as u8) >> 4u8)) as u8)
        by (bit_vector)
        requires
            a < 64,
            v < 64,
    ;
    assert(((a << 6u32) | v) & 15u32 == v & 15u32) by (bit_vector)
        requires
            a < 64,
            v < 64,
    ;
    assert(((a << 6u32) | v) < 4096) by (bit_vector)
        requires
            a < 64,
            v < 64,
    ;
}

proof fn lemma_step_second(b: u32, v: u32)
    requires
        b < 64,
        v < 64,
    ensures
        ((((b & 15u32) << 6u32) | v) >> 2u32) as u8 == ((((b as u8) & 15u8) << 4u8) | ((
        v as u8) >> 2u8)) as u8,
        (((b & 15u32) << 6u32) | v) & 3u32 == v & 3u32,
{
    assert(((((b & 15u32) << 6u32) | v) >> 2u32) as u8 == ((((b as u8) & 15u8) << 4u8) | ((
    v as u8) >> 2u8)) as u8) by (bit_vector)
        requires
            b < 64,
            v < 64,
    ;
    assert((((b & 15u32) << 6u32) | v) & 3u32 == v & 3u32) by (bit_vector)
        requires
            b < 64,
            v < 64,
    ;
}

proof fn lemma_step_third(c: u32, v: u32)
    requires
        c < 64,
        v < 64,
    ensures
        ((((c & 3u32) << 6u32) | v) >> 0u32) as u8 == ((((c as u8) & 3u8) << 6u8) | (
        v as u8)) as u8,
        (((c & 3u32) << 6u32) | v) & 0u32 == 0,
{
    assert(((((c & 3u32) << 6u32) | v) >> 0u32) as u8 == ((((c as u8) & 3u8) << 6u8) | (
    v as u8)) as u8) by (bit_vector)
        requires
            c < 64,
            v < 64,
    ;
    assert((((c & 3u32) << 6u32) | v) & 0u32 == 0) by (bit_vector);
}

/// Byte `i` of `data`, or zero past its end.
pub open spec fn byte_or_zero(data: Seq<u8>, i: int) -> u8 {
    if 0 <= i < data.len() {
        data[i]
    } else {
        0
    }
}

/// How many sextets encode `n` bytes: four per three bytes, and two or
/// three for a trailing one or two bytes.
pub open spec fn encoded_len(n: int) -> int {
    4 * (n / 3) + if n % 3 == 0 {
        0
    } else {
        n % 3 + 1
    }
}

/// Sextet `j` of the standard encoding of `data`.
pub open spec fn encoded_sextet(data: Seq<u8>, j: int) -> u8 {
    let g = j / 4;
    let b0 = byte_or_zero(data, 3 * g);
    let b1 = byte_or_zero(data, 3 * g + 1);
    let b2 = byte_or_zero(data, 3 * g + 2);
    if j % 4 == 0 {
        b0 >> 2u8
    } else if j % 4 == 1 {
        ((b0 & 3u8) << 4u8) | (b1 >> 4u8)
    } else if j % 4 == 2 {
        ((b1 & 15u8) << 2u8) | (b2 >> 6u8)
    } else {
        b2 & 63u8
    }
}

/// The sextets of the standard base64 encoding of `data`, without padding.
pub open spec fn encode_sextets(data: Seq<u8>) -> Seq<u8> {
    Seq::new(encoded_len(data.len() as int) as nat, |j: int| encoded_sextet(data, j))
}

/// The alphabet byte of a sextet: `A`-`Z`, `a`-`z`, `0`-`9`, `+`, `/`.
pub open spec fn alphabet_byte(v: u8) -> u8 {
    if v < 26 {
        (0x41 + v) as u8
    } else if v < 52 {
        (0x61 + v - 26) as u8
    } else if v < 62 {
        (0x30 + v - 52) as u8
    } else if v == 62 {
        0x2b
    } else {
        0x2f
    }
}

/// The standard base64 text of `data`, padded with `=` to a multiple of
/// four bytes.
pub open spec fn base64_text(data: Seq<u8>) -> Seq<u8> {
    let body = encode_sextets(data).map_values(|v: u8| alphabet_byte(v));
    let pad: int = if data.len() % 3 == 0 {
        0
    } else {
        3 - data.len() % 3
    };
    body + Seq::new(pad as nat, |k: int| 0x3du8)
}

proof fn lemma_group_bytes(b0: u8, b1: u8, b2: u8)
    ensures
        ((((b0 >> 2u8) << 2u8) | ((((b0 & 3u8) << 4u8) | (b1 >> 4u8)) >> 4u8)) as u8) == b0,
        ((((((b0 & 3u8) << 4u8) | (b1 >> 4u8)) & 15u8) << 4u8) | ((((b1 & 15u8) << 2u8) | (b2
            >> 6u8)) >> 2u8)) as u8 == b1,
        ((((((b1 & 15u8) << 2u8) | (b2 >> 6u8)) & 3u8) << 6u8) | (b2 & 63u8)) as u8 == b2,
        b0 >> 2u8 < 64,
        ((b0 & 3u8) << 4u8) | (b1 >> 4u8) < 64,
        ((b1 & 15u8) << 2u8) | (b2 >> 6u8) < 64,
        b2 & 63u8 < 64,
{
    assert(((((b0 >> 2u8) << 2u8) | ((((b0 & 3u8) << 4u8) | (b1 >> 4u8)) >> 4u8)) as u8) == b0)
        by (bit_vector);
    assert(((((((b0 & 3u8) << 4u8) | (b1 >> 4u8)) & 15u8) << 4u8) | ((((b1 & 15u8) << 2u8) | (
    b2 >> 6u8)) >> 2u8)) as u8 == b1) by (bit_vector);
    assert(((((((b1 & 15u8) << 2u8) | (b2 >> 6u8)) & 3u8) << 6u8) | (b2 & 63u8)) as u8 == b2)
        by (bit_vector);
    assert(b0 >> 2u8 < 64) by (bit_vector);
    assert(((b0 & 3u8) << 4u8) | (b1 >> 4u8) < 64) by (bit_vector);
    assert(((b1 & 15u8) << 2u8) | (b2 >> 6u8) < 64) by (bit_vector);
    assert(b2 & 63u8 < 64) by (bit_vector);
}

proof fn lemma_group_index(g: int, k: int)
    requires
        g >= 0,
        0 <= k < 4,
    ensures
        (4 * g + k) / 4 == g,
        (4 * g + k) % 4 == k,
{
    assert((4 * g + k) / 4 == g && (4 * g + k) % 4 == k) by (nonlinear_arith)
        requires
            g >= 0,
            0 <= k < 4,
    ;
}

/// The sextets of an encoding decode back to the data.
proof fn lemma_decode_encoded(data: Seq<u8>)
    ensures
        decode_sextets(encode_sextets(data)) == data,
{
    let n = data.len() as int;
    let e = encode_sextets(data);
    assert(6 * encoded_len(n) / 8 == n) by (nonlinear_arith)
        requires
            n >= 0,
            encoded_len(n) == 4 * (n / 3) + if n % 3 == 0 {
                0
            } else {
                n % 3 + 1
            },
    ;
    assert forall|i: int| 0 <= i < n implies #[trigger] decoded_byte(e, i) == data[i] by {
        let g = i / 3;
        let r = i % 3;
        assert(i == 3 * g + r && 0 <= r < 3 && g >= 0) by (nonlinear_arith)
            requires
                0 <= i,
                g == i / 3,
                r == i % 3,
        ;
        assert(4 * g + r + 1 < encoded_len(n)) by (nonlinear_arith)
            requires
                i == 3 * g + r,
                0 <= r < 3,
                i < n,
                g >= 0,
                encoded_len(n) == 4 * (n / 3) + if n % 3 == 0 {
                    0
                } else {
                    n % 3 + 1
                },
        ;
        lemma_group_index(g, 0);
        lemma_group_index(g, 1);
        lemma_group_index(g, 2);
        lemma_group_index(g, 3);
        lemma_group_bytes(byte_or_zero(data, 3 * g), byte_or_zero(data, 3 * g + 1), byte_or_zero(data, 3 * g + 2));
    }
    assert(decode_sextets(e) =~= data);
}

/// Base64 decoding undoes encoding: any payload whose alphabet bytes are
/// the standard encoding of `data`, with or without `=` padding and with
/// line breaks anywhere, decodes to `data`.
pub proof fn law_base64_round_trip(data: Seq<u8>, input: Seq<u8>)
    requires
        all_valid(input),
        sextets(input) == encode_sextets(data),
    ensures
        spec_base64_decode(input) == Ok::<Seq<u8>, Base64DecodeError>(data),
{
    lemma_decode_encoded(data);
}

proof fn lemma_encoded_sextets_small(data: Seq<u8>)
    ensures
        forall|j: int| 0 <= j < encode_sextets(data).len() ==> #[trigger] encode_sextets(data)[j] < 64,
{
    assert forall|j: int| 0 <= j < encode_sextets(data).len() implies #[trigger] encode_sextets(data)[j] < 64 by {
        let g = j / 4;
        lemma_group_bytes(byte_or_zero(data, 3 * g), byte_or_zero(data, 3 * g + 1), byte_or_zero(data, 3 * g + 2));
    }
}

proof fn lemma_sextets_of_alphabet(s: Seq<u8>)
    requires
        forall|j: int| 0 <= j < s.len() ==> #[trigger] s[j] < 64,
    ensures
        sextets(s.map_values(|v: u8| alphabet_byte(v))) == s,
        all_valid(s.map_values(|v: u8| alphabet_byte(v))),
    decreases s.len(),
{
    let m = s.map_values(|v: u8| alphabet_byte(v));
    if s.len() > 0 {
        let init = s.drop_last();
        assert(m.drop_last() =~= init.map_values(|v: u8| alphabet_byte(v)));
        lemma_sextets_of_alphabet(init);
        assert(s[s.len() - 1] < 64);
        assert(m.last() == alphabet_byte(s.last()));
        assert(s =~= init.push(s.last()));
        assert forall|i: int| 0 <= i < m.len() implies is_skipped(#[trigger] m[i]) || sextet_value(m[i]) < 64 by {
            assert(s[i] < 64);
        }
    } else {
        assert(s =~= Seq::<u8>::empty());
    }
}

proof fn lemma_sextets_padding(a: Seq<u8>, k: nat)
    ensures
        sextets(a + Seq::new(k, |i: int| 0x3du8)) == sextets(a),
    decreases k,
{
    let padded = a + Seq::new(k, |i: int| 0x3du8);
    if k == 0 {
        assert(padded =~= a);
    } else {
        assert(padded.drop_last() =~= a + Seq::new((k - 1) as nat, |i: int| 0x3du8));
        lemma_sextets_padding(a, (k - 1) as nat);
    }
}

/// Decoding the standard, padded base64 text of any data gives the data
/// back.
pub proof fn law_base64_text_round_trip(data: Seq<u8>)
    ensures
        spec_base64_decode(base64_text(data)) == Ok::<Seq<u8>, Base64DecodeError>(data),
{
    let e = encode_sextets(data);
    let body = e.map_values(|v: u8| alphabet_byte(v));
    let pad: int = if data.len() % 3 == 0 {
        0
    } else {
        3 - data.len() % 3
    };
    let text = base64_text(data);
    lemma_encoded_sextets_small(data);
    lemma_sextets_of_alphabet(e);
    lemma_sextets_padding(body, pad as nat);
    assert(text == body + Seq::new(pad as nat, |k: int| 0x3du8));
    assert forall|i: int| 0 <= i < text.len() implies is_skipped(#[trigger] text[i]) || sextet_value(text[i]) < 64 by {
        if i < body.len() {
            assert(text[i] == body[i]);
        }
    }
    law_base64_round_trip(data, text);
}

/// Decodes standard base64, passing over padding and line breaks; fails on
/// the first byte outside the alphabet.
pub fn base64_decode(input: &[u8]) -> (r: Result<Vec<u8>, Base64DecodeError>)
    ensures
        match r {
            Ok(out) => spec_base64_decode(input@) == Ok::<Seq<u8>, Base64DecodeError>(out@),
            Err(e) => spec_base64_decode(input@) == Err::<Seq<u8>, Base64DecodeError>(e),
        },
{
    let mut out: Vec<u8> = Vec::new();
    let mut buf: u32 = 0;
    let mut bits: u32 = 0;
    let mut i: usize = 0;
    while i < input.len()
        invariant
            0 <= i <= input.len(),
            all_valid(input@.take(i as int)),
            ({
                let s = sextets(input@.take(i as int));
                let n = s.len();
                &&& forall|j: int| 0 <= j < n ==> #[trigger] s[j] < 64
                &&& n % 4 == 0 ==> bits == 0 && buf == 0
                &&& n % 4 == 1 ==> bits == 6 && buf == s[n - 1] as u32
                &&& n % 4 == 2 ==> bits == 4 && buf == (s[n - 1] & 15u8) as u32
                &&& n % 4 == 3 ==> bits == 2 && buf == (s[n - 1] & 3u8) as u32
                &&& out@ == decode_sextets(s)
            }),
        decreases input.len() - i,
    {
        let b = input[i];
        proof {
            lemma_sextets_step(input@, i as int);
        }
        if b == 0x3d || b == 0x0a || b == 0x0d {
            assert(all_valid(input@.take(i + 1))) by {
                assert forall|k: int| 0 <= k < i + 1 implies is_skipped(
                    #[trigger] input@.take(i + 1)[k],
                ) || sextet_value(input@.take(i + 1)[k]) < 64 by {
                    if k < i {
                        assert(input@.take(i + 1)[k] == input@.take(i as int)[k]);
                    }
                }
            }
            i += 1;
            continue;
        }
        let val = alphabet_value(b);
        if val == 0xff {
            assert(!all_valid(input@)) by {
                assert(!is_skipped(input@[i as int]) && sextet_value(input@[i as int]) >= 64);
            }
            return Err(Base64DecodeError::InvalidByte);
        }
        let ghost s = sextets(input@.take(i as int));
        let ghost n = s.len();
        let ghost s2 = s.push(val);
        assert(sextets(input@.take(i + 1)) == s2);
        let v = val as u32;
        if bits == 0 {
            buf = v;
            bits = 6;
            assert(decode_sextets(s2) =~= decode_sextets(s));
        } else if bits == 6 {
            proof {
                lemma_step_first(buf, v);
            }
            buf = (buf << 6u32) | v;
            bits = 4;
            out.push((buf >> 4u32) as u8);
            buf = buf & 15u32;
            assert(out@ =~= decode_sextets(s2)) by {
                assert forall|j: int| 0 <= j < out@.len() implies out@[j] == decoded_byte(s2, j) by {
                    if j < out@.len() - 1 {
                        assert(decoded_byte(s2, j) == decoded_byte(s, j));
                    } else {
                        assert(j == 3 * (n / 4));
                        assert(j / 3 == n / 4);
                    }
                }
            }
        } else if bits == 4 {
            proof {
                lemma_step_second(s[n - 1] as u32, v);
            }
            buf = (buf << 6u32) | v;
            bits = 2;
            out.push((buf >> 2u32) as u8);
            buf = buf & 3u32;
            assert(out@ =~= decode_sextets(s2)) by {
                assert forall|j: int| 0 <= j < out@.len() implies out@[j] == decoded_byte(s2, j) by {
                    if j < out@.len() - 1 {
                        assert(decoded_byte(s2, j) == decoded_byte(s, j));
                    } else {
                        assert(j == 3 * (n / 4) + 1);
                        assert(j / 3 == n / 4);
                    }
                }
            }
        } else {
            proof {
                lemma_step_third(s[n - 1] as u32, v);
            }
            buf = (buf << 6u32) | v;
            bits = 0;
            out.push((buf >> 0u32) as u8);
            buf = buf & 0u32;
            assert(out@ =~= decode_sextets(s2)) by {
                assert forall|j: int| 0 <= j < out@.len() implies out@[j] == decoded_byte(s2, j) by {
                    if j < out@.len() - 1 {
                        assert(decoded_byte(s2, j) == decoded_byte(s, j));
                    } else {
                        assert(j == 3 * (n / 4) + 2);
                        assert(j / 3 == n / 4);
                    }
                }
            }
        }
        assert(all_valid(input@.take(i + 1))) by {
            assert forall|k: int| 0 <= k < i + 1 implies is_skipped(
                #[trigger] input@.take(i + 1)[k],
            ) || sextet_value(input@.take(i + 1)[k]) < 64 by {
                if k < i {
                    assert(input@.take(i + 1)[k] == input@.take(i as int)[k]);
                }
            }
        }
        i += 1;
    }
    assert(input@.take(input.len() as int) =~= input@);
    Ok(out)
}

} // verus!
