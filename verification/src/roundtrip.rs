//! The codec agreement law: decoding the encoding of a well-formed packet
//! yields the packet back and consumes every byte. This is the bit-for-bit
//! agreement between the two directions of the codec.
//!
//! Well-formedness asks only what the wire format itself cannot carry:
//! strings without interior NUL characters (the NUL is the terminator),
//! blob and bundle-element lengths that fit their 32-bit length fields, and
//! a message address that begins with `/`.

use crate::decoder::{dec_args, dec_arg, dec_bundle, dec_bundle_elems, dec_packet, dec_str,
    find_nul, DecodeError};
use crate::encoder::{enc_args_data, enc_args_tags, enc_bundle_elems, enc_data, enc_message,
    enc_packet, enc_padded, enc_str, enc_tags};
use crate::osc::{OscMessageView, OscPacketView, OscTypeView};
use crate::wire::{be32, be32_val, lemma_be32_roundtrip, lemma_be64_roundtrip, lemma_pad4, pad4,
    zeros};
use vstd::prelude::*;
use vstd::utf8::{decode_utf8, encode_scalar, encode_utf8, encode_utf8_decode_utf8,
    encode_utf8_valid_utf8, valid_utf8};

verus! {

broadcast use vstd::string::group_string_axioms;

/// A string that can live in a NUL-terminated field.
pub open spec fn str_wf(s: Seq<char>) -> bool {
    forall|i: int| 0 <= i < s.len() ==> s[i] != '\0'
}

/// An argument whose variable-length parts survive the wire: strings carry
/// no interior NUL and blob lengths fit the 32-bit length field.
pub open spec fn type_wf(t: OscTypeView) -> bool
    decreases t,
{
    match t {
        OscTypeView::Str(s) => str_wf(s),
        OscTypeView::Blob(b) => b.len() < 0x1_0000_0000,
        OscTypeView::Array(s) => args_wf(s),
        _ => true,
    }
}

pub open spec fn args_wf(s: Seq<OscTypeView>) -> bool
    decreases s,
{
    if s.len() == 0 {
        true
    } else {
        type_wf(s[0]) && args_wf(s.drop_first())
    }
}

/// A message whose address is a well-formed `/`-led string and whose
/// arguments are well formed.
pub open spec fn message_wf(m: OscMessageView) -> bool {
    &&& m.addr.len() > 0
    &&& m.addr[0] == '/'
    &&& str_wf(m.addr)
    &&& args_wf(m.args)
}

/// A packet whose messages are well formed and whose bundle elements fit
/// their 32-bit length prefixes.
pub open spec fn packet_wf(p: OscPacketView) -> bool
    decreases p,
{
    match p {
        OscPacketView::Message(m) => message_wf(m),
        OscPacketView::Bundle(b) => packets_wf(b.content),
    }
}

pub open spec fn packets_wf(s: Seq<OscPacketView>) -> bool
    decreases s,
{
    if s.len() == 0 {
        true
    } else {
        packet_wf(s[0]) && enc_packet(s[0]).len() < 0x1_0000_0000 && packets_wf(s.drop_first())
    }
}

/// The UTF-8 encoding of a non-NUL scalar contains no zero byte.
proof fn lemma_encode_scalar_no_nul(v: u32)
    requires
        vstd::utf8::is_scalar(v),
        v != 0,
    ensures
        forall|j: int| 0 <= j < encode_scalar(v).len() ==> encode_scalar(v)[j] != 0,
{
    if vstd::utf8::has_width_1_encoding(v) {
        assert((v & 0x7F) as u8 != 0) by (bit_vector)
            requires
                v <= 0x7F && v != 0,
        ;
    } else {
        assert((0xC0u8 | ((v >> 6) & 0x1F) as u8) != 0) by (bit_vector);
        assert((0xE0u8 | ((v >> 12) & 0x0F) as u8) != 0) by (bit_vector);
        assert((0xF0u8 | ((v >> 18) & 0x7) as u8) != 0) by (bit_vector);
        assert((0x80u8 | (v & 0x3F) as u8) != 0) by (bit_vector);
        assert((0x80u8 | ((v >> 6) & 0x3F) as u8) != 0) by (bit_vector);
        assert((0x80u8 | ((v >> 12) & 0x3F) as u8) != 0) by (bit_vector);
    }
}

/// The UTF-8 encoding of a string without NUL characters contains no zero
/// byte.
#[verifier::rlimit(100)]
#[verifier::spinoff_prover]
proof fn lemma_encode_utf8_no_nul(s: Seq<char>)
    requires
        str_wf(s),
    ensures
        forall|j: int| 0 <= j < encode_utf8(s).len() ==> encode_utf8(s)[j] != 0,
    decreases s.len(),
{
    if s.len() > 0 {
        let v = s[0] as u32;
        vstd::utf8::char_is_scalar(s[0]);
        assert(s[0] != '\0');
        assert(v != 0) by {
            if v == 0 {
                vstd::utf8::char_u32_cast(s[0], 0);
                assert(('\0' as u32) == 0);
                vstd::utf8::char_u32_cast('\0', 0);
            }
        }
        lemma_encode_scalar_no_nul(v);
        assert(str_wf(s.drop_first()));
        lemma_encode_utf8_no_nul(s.drop_first());
        assert forall|j: int| 0 <= j < encode_utf8(s).len() implies encode_utf8(s)[j] != 0 by {
            if j < encode_scalar(v).len() {
                assert(encode_utf8(s)[j] == encode_scalar(v)[j]);
            } else {
                assert(encode_utf8(s)[j] == encode_utf8(s.drop_first())[j - encode_scalar(
                    v,
                ).len()]);
            }
        }
    }
}

/// The first NUL after `pos` sits exactly at `k` when everything before it
/// is non-zero.
proof fn lemma_find_nul_exact(buf: Seq<u8>, pos: int, end: int, k: int)
    requires
        pos <= k < end,
        buf[k] == 0,
        forall|j: int| pos <= j < k ==> buf[j] != 0,
    ensures
        find_nul(buf, pos, end) == k,
    decreases k - pos,
{
    if pos < k {
        lemma_find_nul_exact(buf, pos + 1, end, k);
    }
}

/// Splits knowledge of a two-part region into its parts.
proof fn lemma_region_split(buf: Seq<u8>, pos: int, a: Seq<u8>, b: Seq<u8>)
    requires
        0 <= pos,
        pos + a.len() + b.len() <= buf.len(),
        buf.subrange(pos, pos + a.len() + b.len()) == a + b,
    ensures
        buf.subrange(pos, pos + a.len()) == a,
        buf.subrange(pos + a.len(), pos + a.len() + b.len()) == b,
{
    let whole = buf.subrange(pos, pos + a.len() + b.len());
    assert(buf.subrange(pos, pos + a.len()) =~= a) by {
        assert forall|j: int| 0 <= j < a.len() implies buf.subrange(pos, pos + a.len())[j]
            == a[j] by {
            assert(buf[pos + j] == whole[j]);
            assert(whole[j] == (a + b)[j]);
        }
    }
    assert(buf.subrange(pos + a.len(), pos + a.len() + b.len()) =~= b) by {
        assert forall|j: int| 0 <= j < b.len() implies buf.subrange(
            pos + a.len(),
            pos + a.len() + b.len(),
        )[j] == b[j] by {
            assert(buf[pos + a.len() + j] == whole[a.len() + j]);
            assert(whole[a.len() + j] == (a + b)[a.len() + j]);
        }
    }
}

/// Decoding a string field that holds the encoding of `s` yields `s` and
/// stops exactly after the padding.
#[verifier::rlimit(100)]
#[verifier::spinoff_prover]
proof fn lemma_dec_enc_str(buf: Seq<u8>, pos: int, end: int, s: Seq<char>)
    requires
        0 <= pos,
        pos % 4 == 0,
        str_wf(s),
        pos + enc_str(s).len() <= end <= buf.len(),
        buf.subrange(pos, pos + enc_str(s).len()) == enc_str(s),
    ensures
        dec_str(buf, pos, end) == Ok::<(Seq<char>, int), DecodeError>((
            s,
            pos + enc_str(s).len(),
        )),
{
    let b = encode_utf8(s);
    let e = enc_str(s);
    let n = pos + b.len();
    lemma_pad4(b.len() as int + 1);
    assert(e.len() == pad4(b.len() as int + 1));
    lemma_encode_utf8_no_nul(s);
    assert forall|j: int| pos <= j < n implies buf[j] != 0 by {
        assert(buf[j] == e[j - pos]);
        assert(e[j - pos] == b[j - pos]);
    }
    assert(buf[n] == e[b.len() as int]);
    assert(e[b.len() as int] == zeros(pad4(b.len() as int + 1) - b.len())[0]);
    assert(buf[n] == 0);
    lemma_find_nul_exact(buf, pos, end, n);
    assert(pad4(n + 1) == pos + pad4(b.len() as int + 1)) by {
        assert((pos + b.len() + 1) % 4 == (b.len() + 1) % 4);
    }
    assert(pad4(n + 1) <= end);
    assert(buf.subrange(pos, n) =~= b) by {
        assert forall|j: int| 0 <= j < b.len() implies buf.subrange(pos, n)[j] == b[j] by {
            assert(buf[pos + j] == e[j]);
        }
    }
    encode_utf8_valid_utf8(s);
    encode_utf8_decode_utf8(s);
    assert(valid_utf8(b));
    assert(decode_utf8(b) == s);
}

/// The type-tag characters of one argument, at character level.
pub open spec fn tag_chars(t: OscTypeView) -> Seq<char>
    decreases t,
{
    match t {
        OscTypeView::Int(_) => seq!['i'],
        OscTypeView::Float(_) => seq!['f'],
        OscTypeView::Str(_) => seq!['s'],
        OscTypeView::Blob(_) => seq!['b'],
        OscTypeView::Time(_) => seq!['t'],
        OscTypeView::Long(_) => seq!['h'],
        OscTypeView::Double(_) => seq!['d'],
        OscTypeView::Char(_) => seq!['c'],
        OscTypeView::Color(_) => seq!['r'],
        OscTypeView::Midi(_) => seq!['m'],
        OscTypeView::Bool(x) => if x {
            seq!['T']
        } else {
            seq!['F']
        },
        OscTypeView::Array(s) => seq!['['] + args_tag_chars(s) + seq![']'],
        OscTypeView::Nil => seq!['N'],
        OscTypeView::Inf => seq!['I'],
    }
}

/// The type-tag characters of an argument list, in order.
pub open spec fn args_tag_chars(s: Seq<OscTypeView>) -> Seq<char>
    decreases s,
{
    if s.len() == 0 {
        Seq::empty()
    } else {
        tag_chars(s[0]) + args_tag_chars(s.drop_first())
    }
}

/// UTF-8 encoding distributes over concatenation.
proof fn lemma_encode_utf8_concat(a: Seq<char>, b: Seq<char>)
    ensures
        encode_utf8(a + b) == encode_utf8(a) + encode_utf8(b),
    decreases a.len(),
{
    if a.len() == 0 {
        assert(a + b =~= b);
        assert(encode_utf8(a) + encode_utf8(b) =~= encode_utf8(b));
    } else {
        assert((a + b)[0] == a[0]);
        assert((a + b).len() > 0);
        assert((a + b).drop_first() =~= a.drop_first() + b);
        lemma_encode_utf8_concat(a.drop_first(), b);
        assert(encode_utf8(a + b) =~= encode_utf8(a) + encode_utf8(b));
    }
}

/// A one-character ASCII string encodes as its single byte.
proof fn lemma_encode_utf8_single(c: char)
    requires
        (c as u32) <= 0x7F,
    ensures
        encode_utf8(seq![c]) == seq![c as u8],
{
    let v = c as u32;
    assert(seq![c].drop_first() =~= Seq::<char>::empty());
    assert(seq![c][0] == c);
    assert(seq![c].len() == 1);
    assert(encode_utf8(Seq::<char>::empty()) =~= Seq::<u8>::empty());
    assert(encode_utf8(seq![c]) == encode_scalar(seq![c][0] as u32) + encode_utf8(
        seq![c].drop_first(),
    ));
    assert(encode_utf8(seq![c]) =~= encode_scalar(v));
    assert((v & 0x7F) as u8 == v as u8) by (bit_vector)
        requires
            v <= 0x7F,
    ;
    assert(encode_scalar(v) =~= seq![c as u8]);
}

/// The tag characters encode, byte for byte, as the tag bytes the encoder
/// writes.
#[verifier::rlimit(100)]
#[verifier::spinoff_prover]
proof fn lemma_tag_chars_encode(t: OscTypeView)
    ensures
        encode_utf8(tag_chars(t)) == enc_tags(t),
    decreases t,
{
    match t {
        OscTypeView::Array(s) => {
            lemma_args_tag_chars_encode(s);
            lemma_encode_utf8_single('[');
            lemma_encode_utf8_single(']');
            lemma_encode_utf8_concat(seq!['['], args_tag_chars(s));
            lemma_encode_utf8_concat(seq!['['] + args_tag_chars(s), seq![']']);
            assert(tag_chars(t) =~= (seq!['['] + args_tag_chars(s)) + seq![']']);
            assert(encode_utf8(tag_chars(t)) =~= enc_tags(t));
        },
        OscTypeView::Bool(x) => {
            if x {
                lemma_encode_utf8_single('T');
            } else {
                lemma_encode_utf8_single('F');
            }
        },
        OscTypeView::Int(_) => lemma_encode_utf8_single('i'),
        OscTypeView::Float(_) => lemma_encode_utf8_single('f'),
        OscTypeView::Str(_) => lemma_encode_utf8_single('s'),
        OscTypeView::Blob(_) => lemma_encode_utf8_single('b'),
        OscTypeView::Time(_) => lemma_encode_utf8_single('t'),
        OscTypeView::Long(_) => lemma_encode_utf8_single('h'),
        OscTypeView::Double(_) => lemma_encode_utf8_single('d'),
        OscTypeView::Char(_) => lemma_encode_utf8_single('c'),
        OscTypeView::Color(_) => lemma_encode_utf8_single('r'),
        OscTypeView::Midi(_) => lemma_encode_utf8_single('m'),
        OscTypeView::Nil => lemma_encode_utf8_single('N'),
        OscTypeView::Inf => lemma_encode_utf8_single('I'),
    }
}

#[verifier::rlimit(100)]
#[verifier::spinoff_prover]
proof fn lemma_args_tag_chars_encode(s: Seq<OscTypeView>)
    ensures
        encode_utf8(args_tag_chars(s)) == enc_args_tags(s),
    decreases s,
{
    if s.len() > 0 {
        lemma_tag_chars_encode(s[0]);
        lemma_args_tag_chars_encode(s.drop_first());
        lemma_encode_utf8_concat(tag_chars(s[0]), args_tag_chars(s.drop_first()));
    }
}

/// Tag characters are never NUL and never a comma, and one argument always
/// contributes at least one of them.
proof fn lemma_tag_chars_wf(t: OscTypeView)
    ensures
        forall|i: int|
            0 <= i < tag_chars(t).len() ==> tag_chars(t)[i] != '\0' && tag_chars(t)[i] != ',',
        tag_chars(t).len() >= 1,
    decreases t,
{
    match t {
        OscTypeView::Array(s) => {
            lemma_args_tag_chars_wf(s);
            assert forall|i: int| 0 <= i < tag_chars(t).len() implies tag_chars(t)[i] != '\0'
                && tag_chars(t)[i] != ',' by {
                if 1 <= i < 1 + args_tag_chars(s).len() {
                    assert(tag_chars(t)[i] == args_tag_chars(s)[i - 1]);
                }
            }
        },
        _ => {},
    }
}

proof fn lemma_args_tag_chars_wf(s: Seq<OscTypeView>)
    ensures
        forall|i: int|
            0 <= i < args_tag_chars(s).len() ==> args_tag_chars(s)[i] != '\0' && args_tag_chars(
                s,
            )[i] != ',',
    decreases s,
{
    if s.len() > 0 {
        lemma_tag_chars_wf(s[0]);
        lemma_args_tag_chars_wf(s.drop_first());
        assert forall|i: int| 0 <= i < args_tag_chars(s).len() implies args_tag_chars(s)[i]
            != '\0' && args_tag_chars(s)[i] != ',' by {
            if i < tag_chars(s[0]).len() {
                assert(args_tag_chars(s)[i] == tag_chars(s[0])[i]);
            } else {
                assert(args_tag_chars(s)[i] == args_tag_chars(s.drop_first())[i - tag_chars(
                    s[0],
                ).len()]);
            }
        }
    }
}

/// Every argument payload is a whole number of four-byte words.
#[verifier::rlimit(100)]
#[verifier::spinoff_prover]
proof fn lemma_enc_data_len4(t: OscTypeView)
    ensures
        enc_data(t).len() % 4 == 0,
    decreases t,
{
    match t {
        OscTypeView::Str(s) => {
            lemma_pad4(encode_utf8(s).len() as int + 1);
        },
        OscTypeView::Blob(b) => {
            lemma_pad4(b.len() as int);
        },
        OscTypeView::Array(s) => {
            lemma_enc_args_data_len4(s);
        },
        _ => {},
    }
}

#[verifier::rlimit(100)]
#[verifier::spinoff_prover]
proof fn lemma_enc_args_data_len4(s: Seq<OscTypeView>)
    ensures
        enc_args_data(s).len() % 4 == 0,
    decreases s,
{
    if s.len() > 0 {
        lemma_enc_data_len4(s[0]);
        lemma_enc_args_data_len4(s.drop_first());
    }
}

/// Every message encoding is a whole number of four-byte words.
#[verifier::rlimit(100)]
#[verifier::spinoff_prover]
proof fn lemma_enc_message_len4(m: OscMessageView)
    ensures
        enc_message(m).len() % 4 == 0,
{
    lemma_pad4(encode_utf8(m.addr).len() as int + 1);
    lemma_pad4((seq![(',' as u8)] + enc_args_tags(m.args)).len() as int + 1);
    lemma_enc_args_data_len4(m.args);
}

/// Every packet encoding is a whole number of four-byte words.
#[verifier::rlimit(100)]
#[verifier::spinoff_prover]
proof fn lemma_enc_packet_len4(p: OscPacketView)
    ensures
        enc_packet(p).len() % 4 == 0,
    decreases p,
{
    match p {
        OscPacketView::Message(m) => lemma_enc_message_len4(m),
        OscPacketView::Bundle(b) => {
            lemma_pad4(encode_utf8("#bundle"@).len() as int + 1);
            lemma_enc_bundle_elems_len4(b.content);
        },
    }
}

#[verifier::rlimit(100)]
#[verifier::spinoff_prover]
proof fn lemma_enc_bundle_elems_len4(s: Seq<OscPacketView>)
    ensures
        enc_bundle_elems(s).len() % 4 == 0,
    decreases s,
{
    if s.len() > 0 {
        lemma_enc_packet_len4(s[0]);
        lemma_enc_bundle_elems_len4(s.drop_first());
    }
}

/// Decoding the payload of one non-array argument under its own tag yields
/// the argument back and consumes exactly its payload.
#[verifier::rlimit(60)]
#[verifier::spinoff_prover]
proof fn lemma_dec_enc_scalar_arg(buf: Seq<u8>, pos: int, end: int, t: OscTypeView)
    requires
        !(t is Array),
        type_wf(t),
        0 <= pos,
        pos % 4 == 0,
        pos + enc_data(t).len() <= end <= buf.len(),
        buf.subrange(pos, pos + enc_data(t).len()) == enc_data(t),
    ensures
        dec_arg(buf, pos, end, tag_chars(t)[0]) == Ok::<(OscTypeView, int), DecodeError>((
            t,
            pos + enc_data(t).len(),
        )),
{
    let e = enc_data(t);
    assert forall|j: int| 0 <= j < e.len() implies buf[pos + j] == e[j] by {
        assert(buf.subrange(pos, pos + e.len())[j] == e[j]);
    }
    match t {
        OscTypeView::Int(x) => {
            lemma_be32_roundtrip(x as u32);
            assert(((x as u32) as i32) == x) by (bit_vector);
        },
        OscTypeView::Float(x) => {
            lemma_be32_roundtrip(x);
        },
        OscTypeView::Str(s) => {
            lemma_dec_enc_str(buf, pos, end, s);
        },
        OscTypeView::Blob(b) => {
            let len32 = b.len() as u32;
            lemma_be32_roundtrip(len32);
            assert forall|j: int| 0 <= j < 4 implies e[j] == be32(len32)[j] by {
                assert(e[j] == ((be32(len32) + b) + zeros(pad4(b.len() as int) - b.len()))[j]);
                assert((be32(len32) + b)[j] == be32(len32)[j]);
            }
            assert(len32 as int == b.len());
            lemma_pad4(b.len() as int);
            let data_end = pos + 4 + b.len();
            assert(pad4(data_end) == pos + 4 + pad4(b.len() as int)) by {
                assert((pos + 4 + b.len()) % 4 == (b.len() as int) % 4);
            }
            assert(e.len() == 4 + pad4(b.len() as int));
            assert(buf.subrange(pos + 4, data_end) =~= b) by {
                assert forall|j: int| 0 <= j < b.len() implies buf.subrange(pos + 4, data_end)[j]
                    == b[j] by {
                    assert(buf[pos + 4 + j] == e[4 + j]);
                    assert(e[4 + j] == ((be32(len32) + b) + zeros(
                        pad4(b.len() as int) - b.len(),
                    ))[4 + j]);
                    assert((be32(len32) + b)[4 + j] == b[j]);
                }
            }
            let got = be32_val(buf[pos], buf[pos + 1], buf[pos + 2], buf[pos + 3]);
            assert(buf[pos] == be32(len32)[0]) by {
                assert(buf[pos + 0] == e[0]);
            }
            assert(buf[pos + 1] == be32(len32)[1]) by {
                assert(buf[pos + 1] == e[1]);
            }
            assert(buf[pos + 2] == be32(len32)[2]) by {
                assert(buf[pos + 2] == e[2]);
            }
            assert(buf[pos + 3] == be32(len32)[3]) by {
                assert(buf[pos + 3] == e[3]);
            }
            assert(got == len32);
            assert(got as int == b.len());
            assert(data_end <= end);
            assert(pad4(data_end) <= end);
            assert(pad4(data_end) == pos + enc_data(t).len());
        },
        OscTypeView::Time(tt) => {
            lemma_be32_roundtrip(tt.seconds);
            lemma_be32_roundtrip(tt.fractional);
            assert forall|j: int| 0 <= j < 4 implies e[j] == be32(tt.seconds)[j] && e[4 + j]
                == be32(tt.fractional)[j] by {
                assert(e[j] == (be32(tt.seconds) + be32(tt.fractional))[j]);
                assert(e[4 + j] == (be32(tt.seconds) + be32(tt.fractional))[4 + j]);
            }
            assert forall|j: int| 0 <= j < 4 implies buf[pos + 4 + j] == be32(
                tt.fractional,
            )[j] by {
                assert(buf[pos + 4 + j] == e[4 + j]);
            }
        },
        OscTypeView::Long(x) => {
            lemma_be64_roundtrip(x as u64);
            assert(((x as u64) as i64) == x) by (bit_vector);
        },
        OscTypeView::Double(x) => {
            lemma_be64_roundtrip(x);
        },
        OscTypeView::Char(c) => {
            lemma_be32_roundtrip(c as u32);
            vstd::utf8::char_is_scalar(c);
            vstd::utf8::char_u32_cast(c, c as u32);
        },
        OscTypeView::Color(_) => {},
        OscTypeView::Midi(_) => {},
        OscTypeView::Bool(_) => {},
        OscTypeView::Nil => {},
        OscTypeView::Inf => {},
        OscTypeView::Array(_) => {},
    }
}

/// Splits knowledge of a two-part subrange into its parts.
proof fn lemma_subrange_split<T>(s: Seq<T>, pos: int, a: Seq<T>, b: Seq<T>)
    requires
        0 <= pos,
        pos + a.len() + b.len() <= s.len(),
        s.subrange(pos, pos + a.len() + b.len()) == a + b,
    ensures
        s.subrange(pos, pos + a.len()) == a,
        s.subrange(pos + a.len(), pos + a.len() + b.len()) == b,
{
    let whole = s.subrange(pos, pos + a.len() + b.len());
    assert(s.subrange(pos, pos + a.len()) =~= a) by {
        assert forall|j: int| 0 <= j < a.len() implies s.subrange(pos, pos + a.len())[j]
            == a[j] by {
            assert(s[pos + j] == whole[j]);
            assert(whole[j] == (a + b)[j]);
        }
    }
    assert(s.subrange(pos + a.len(), pos + a.len() + b.len()) =~= b) by {
        assert forall|j: int| 0 <= j < b.len() implies s.subrange(
            pos + a.len(),
            pos + a.len() + b.len(),
        )[j] == b[j] by {
            assert(s[pos + a.len() + j] == whole[a.len() + j]);
            assert(whole[a.len() + j] == (a + b)[a.len() + j]);
        }
    }
}

/// A non-array argument has a single tag character, and it is not a
/// bracket.
proof fn lemma_scalar_tag_char(t: OscTypeView)
    requires
        !(t is Array),
    ensures
        tag_chars(t).len() == 1,
        tag_chars(t)[0] != '[',
        tag_chars(t)[0] != ']',
{
}

/// Walking the tags of an argument run appends the run to the current
/// frame and advances past its payloads: the decoder's tag-and-stack
/// machine inverts the encoder one argument at a time, whatever frames are
/// already open.
#[verifier::rlimit(100)]
#[verifier::spinoff_prover]
proof fn lemma_dec_enc_args_walk(
    buf: Seq<u8>,
    pos: int,
    end: int,
    args: Seq<OscTypeView>,
    tags: Seq<char>,
    i: int,
    stack: Seq<Seq<OscTypeView>>,
    cur: Seq<OscTypeView>,
)
    requires
        args_wf(args),
        0 <= pos,
        pos % 4 == 0,
        pos + enc_args_data(args).len() <= end <= buf.len(),
        buf.subrange(pos, pos + enc_args_data(args).len()) == enc_args_data(args),
        0 <= i,
        i + args_tag_chars(args).len() <= tags.len(),
        tags.subrange(i, i + args_tag_chars(args).len()) == args_tag_chars(args),
    ensures
        dec_args(buf, pos, end, tags, i, stack, cur) == dec_args(
            buf,
            pos + enc_args_data(args).len(),
            end,
            tags,
            i + args_tag_chars(args).len(),
            stack,
            cur + args,
        ),
    decreases args,
{
    if args.len() == 0 {
        assert(cur + args =~= cur);
    } else {
        let t = args[0];
        let rest = args.drop_first();
        assert(type_wf(t) && args_wf(rest));
        let dt = enc_data(t);
        let drest = enc_args_data(rest);
        let ct = tag_chars(t);
        let crest = args_tag_chars(rest);
        assert(enc_args_data(args) == dt + drest);
        assert(args_tag_chars(args) == ct + crest);
        lemma_subrange_split(buf, pos, dt, drest);
        lemma_subrange_split(tags, i, ct, crest);
        lemma_enc_data_len4(t);
        lemma_tag_chars_wf(t);
        let pos2 = pos + dt.len();
        let i2 = i + ct.len();
        assert(decreases_to!(args => args[0]));
        assert(decreases_to!(args => rest));
        if t is Array {
            let inner = t->Array_0;
            assert(decreases_to!(args[0] => inner));
            assert(decreases_to!(args => inner));
            assert(dt == enc_args_data(inner));
            assert(ct == seq!['['] + args_tag_chars(inner) + seq![']']);
            let cin = args_tag_chars(inner);
            assert(tags[i] == '[') by {
                assert(tags.subrange(i, i + ct.len())[0] == ct[0]);
                assert(ct[0] == ((seq!['['] + cin) + seq![']'])[0]);
            }
            assert(i < tags.len());
            assert(dec_args(buf, pos, end, tags, i, stack, cur) == dec_args(
                buf,
                pos,
                end,
                tags,
                i + 1,
                stack.push(cur),
                Seq::empty(),
            ));
            assert(tags.subrange(i + 1, i + 1 + cin.len()) =~= cin) by {
                assert forall|j: int| 0 <= j < cin.len() implies tags.subrange(
                    i + 1,
                    i + 1 + cin.len(),
                )[j] == cin[j] by {
                    assert(tags[i + 1 + j] == tags.subrange(i, i + ct.len())[1 + j]);
                    assert(ct[1 + j] == ((seq!['['] + cin) + seq![']'])[1 + j]);
                }
            }
            assert(args_wf(inner));
            lemma_dec_enc_args_walk(buf, pos, end, inner, tags, i + 1, stack.push(cur),
                Seq::empty());
            let after_inner = dec_args(
                buf,
                pos + enc_args_data(inner).len(),
                end,
                tags,
                i + 1 + cin.len(),
                stack.push(cur),
                Seq::empty() + inner,
            );
            let iclose = i + 1 + cin.len();
            assert(tags[iclose] == ']') by {
                assert(tags.subrange(i, i + ct.len())[ct.len() - 1] == ct[ct.len() - 1]);
                assert(ct[ct.len() - 1] == ((seq!['['] + cin) + seq![']'])[ct.len() - 1]);
            }
            assert(iclose < tags.len());
            assert(stack.push(cur).len() > 0);
            assert(after_inner == dec_args(
                buf,
                pos2,
                end,
                tags,
                iclose + 1,
                stack.push(cur).drop_last(),
                stack.push(cur).last().push(OscTypeView::Array(Seq::empty() + inner)),
            ));
            assert(stack.push(cur).drop_last() =~= stack);
            assert(stack.push(cur).last() == cur);
            assert(Seq::empty() + inner =~= inner);
            assert(iclose + 1 == i2);
            assert(after_inner == dec_args(buf, pos2, end, tags, i2, stack, cur.push(t)));
        } else {
            lemma_scalar_tag_char(t);
            assert(tags[i] == ct[0]) by {
                assert(tags.subrange(i, i + ct.len())[0] == ct[0]);
            }
            assert(i < tags.len());
            lemma_dec_enc_scalar_arg(buf, pos, end, t);
            assert(dec_args(buf, pos, end, tags, i, stack, cur) == dec_args(
                buf,
                pos2,
                end,
                tags,
                i + 1,
                stack,
                cur.push(t),
            ));
        }
        lemma_dec_enc_args_walk(buf, pos2, end, rest, tags, i2, stack, cur.push(t));
        assert(cur.push(t) + rest =~= cur + args) by {
            assert(args =~= seq![t] + rest);
        }
        assert(pos2 + drest.len() == pos + enc_args_data(args).len());
        assert(i2 + crest.len() == i + args_tag_chars(args).len());
    }
}

/// An all-ASCII string encodes one byte per character.
proof fn lemma_encode_utf8_ascii_len(s: Seq<char>)
    requires
        forall|i: int| 0 <= i < s.len() ==> (s[i] as u32) <= 0x7F,
    ensures
        encode_utf8(s).len() == s.len(),
    decreases s.len(),
{
    if s.len() > 0 {
        vstd::utf8::char_is_scalar(s[0]);
        assert(encode_scalar(s[0] as u32).len() == 1);
        lemma_encode_utf8_ascii_len(s.drop_first());
    }
}

/// Decoding a region that holds the encoding of a well-formed packet, and
/// nothing else, yields the packet and consumes the whole region.
#[verifier::rlimit(100)]
#[verifier::spinoff_prover]
proof fn lemma_dec_enc_packet(buf: Seq<u8>, pos: int, end: int, p: OscPacketView)
    requires
        packet_wf(p),
        0 <= pos,
        pos % 4 == 0,
        end == pos + enc_packet(p).len(),
        end <= buf.len(),
        buf.subrange(pos, end) == enc_packet(p),
    ensures
        dec_packet(buf, pos, end) == Ok::<(OscPacketView, int), DecodeError>((p, end)),
    decreases p, 1int,
{
    match p {
        OscPacketView::Message(m) => {
            let ea = enc_str(m.addr);
            let tb = seq![(',' as u8)] + enc_args_tags(m.args);
            let et = enc_padded(tb);
            let ed = enc_args_data(m.args);
            let tagchars = seq![','] + args_tag_chars(m.args);
            assert(enc_packet(p) =~= ea + (et + ed));
            lemma_subrange_split(buf, pos, ea, et + ed);
            lemma_subrange_split(buf, pos + ea.len(), et, ed);
            lemma_pad4(encode_utf8(m.addr).len() as int + 1);
            lemma_pad4(tb.len() as int + 1);
            assert(pos < end);
            lemma_dec_enc_str(buf, pos, end, m.addr);
            let pos2 = pos + ea.len();
            // the tag field is the padded string of the tag characters
            lemma_args_tag_chars_encode(m.args);
            lemma_encode_utf8_single(',');
            lemma_encode_utf8_concat(seq![','], args_tag_chars(m.args));
            assert(encode_utf8(tagchars) =~= tb);
            assert(et == enc_str(tagchars));
            lemma_args_tag_chars_wf(m.args);
            assert(str_wf(tagchars)) by {
                assert forall|j: int| 0 <= j < tagchars.len() implies tagchars[j] != '\0' by {
                    if j >= 1 {
                        assert(tagchars[j] == args_tag_chars(m.args)[j - 1]);
                    }
                }
            }
            lemma_dec_enc_str(buf, pos2, end, tagchars);
            let pos3 = pos2 + et.len();
            assert(tagchars[0] == ',');
            if m.args.len() == 0 {
                assert(tagchars.len() == 1);
                assert(ed.len() == 0);
                assert(pos3 == end);
                assert(OscMessageView { addr: m.addr, args: Seq::empty() } == m);
                assert(dec_packet(buf, pos, end) == Ok::<(OscPacketView, int), DecodeError>((
                    p,
                    end,
                )));
            } else {
                lemma_tag_chars_wf(m.args[0]);
                assert(args_tag_chars(m.args).len() >= 1);
                assert(tagchars.len() > 1);
                let atc = args_tag_chars(m.args);
                assert(tagchars.drop_first() =~= atc);
                assert(atc.subrange(0, atc.len() as int) =~= atc);
                lemma_dec_enc_args_walk(buf, pos3, end, m.args, atc, 0, Seq::empty(),
                    Seq::empty());
                assert(Seq::empty() + m.args =~= m.args);
                assert(pos3 + ed.len() == end);
                assert(dec_args(buf, pos3, end, atc, 0, Seq::empty(), Seq::empty()) == Ok::<
                    (Seq<OscTypeView>, int),
                    DecodeError,
                >((m.args, end)));
                assert(OscMessageView { addr: m.addr, args: m.args } == m);
                assert(dec_packet(buf, pos, end) == Ok::<(OscPacketView, int), DecodeError>((
                    p,
                    end,
                )));
            }
        },
        OscPacketView::Bundle(b) => {
            reveal_strlit("#bundle");
            let tag = "#bundle"@;
            let ea = enc_str(tag);
            let es = be32(b.timetag.seconds);
            let ef = be32(b.timetag.fractional);
            let ee = enc_bundle_elems(b.content);
            assert(enc_packet(p) =~= ea + (es + (ef + ee)));
            lemma_subrange_split(buf, pos, ea, es + (ef + ee));
            lemma_subrange_split(buf, pos + ea.len(), es, ef + ee);
            lemma_subrange_split(buf, pos + ea.len() + 4, ef, ee);
            assert(forall|i: int| 0 <= i < tag.len() ==> (tag[i] as u32) <= 0x7F);
            lemma_encode_utf8_ascii_len(tag);
            lemma_pad4(encode_utf8(tag).len() as int + 1);
            assert(ea.len() == 8);
            assert(str_wf(tag));
            assert(pos < end);
            lemma_dec_enc_str(buf, pos, end, tag);
            let pos2 = pos + 8;
            assert(tag[0] == '#');
            assert(!(tag.len() > 0 && tag[0] == '/'));
            assert(pos2 > pos);
            // the time tag reads back
            lemma_be32_roundtrip(b.timetag.seconds);
            lemma_be32_roundtrip(b.timetag.fractional);
            assert forall|j: int| 0 <= j < 4 implies buf[pos2 + j] == es[j] && buf[pos2 + 4 + j]
                == ef[j] by {
                assert(buf.subrange(pos2, pos2 + 4)[j] == es[j]);
                assert(buf.subrange(pos2 + 4, pos2 + 8)[j] == ef[j]);
            }
            assert(buf[pos2] == es[0]) by {
                assert(buf[pos2 + 0] == es[0]);
            }
            assert(buf[pos2 + 4] == ef[0]) by {
                assert(buf[pos2 + 4 + 0] == ef[0]);
            }
            assert(pos2 + 8 <= end);
            lemma_dec_enc_elems(buf, pos2 + 8, end, b.content, Seq::empty());
            assert(Seq::empty() + b.content =~= b.content);
            assert(dec_bundle(buf, pos2, end) == Ok::<(OscPacketView, int), DecodeError>((
                p,
                end,
            )));
        },
    }
}

/// Decoding the elements region of a bundle yields exactly the encoded
/// packets, appended to whatever was already collected.
#[verifier::rlimit(100)]
#[verifier::spinoff_prover]
proof fn lemma_dec_enc_elems(
    buf: Seq<u8>,
    pos: int,
    end: int,
    content: Seq<OscPacketView>,
    acc: Seq<OscPacketView>,
)
    requires
        packets_wf(content),
        0 <= pos,
        pos % 4 == 0,
        end == pos + enc_bundle_elems(content).len(),
        end <= buf.len(),
        buf.subrange(pos, end) == enc_bundle_elems(content),
    ensures
        dec_bundle_elems(buf, pos, end, acc) == Ok::<Seq<OscPacketView>, DecodeError>(
            acc + content,
        ),
    decreases content, 0int,
{
    if content.len() == 0 {
        assert(acc + content =~= acc);
    } else {
        let e0 = content[0];
        let rest = content.drop_first();
        let pe = enc_packet(e0);
        let len32 = pe.len() as u32;
        let el = be32(len32);
        assert(decreases_to!(content => content[0]));
        assert(decreases_to!(content => rest));
        assert(enc_bundle_elems(content) =~= el + (pe + enc_bundle_elems(rest)));
        lemma_subrange_split(buf, pos, el, pe + enc_bundle_elems(rest));
        lemma_subrange_split(buf, pos + 4, pe, enc_bundle_elems(rest));
        lemma_be32_roundtrip(len32);
        assert forall|j: int| 0 <= j < 4 implies buf[pos + j] == el[j] by {
            assert(buf.subrange(pos, pos + 4)[j] == el[j]);
        }
        assert(buf[pos] == el[0]) by {
            assert(buf[pos + 0] == el[0]);
        }
        assert(len32 as int == pe.len());
        let elem_end = pos + 4 + pe.len();
        assert(elem_end <= end);
        lemma_enc_packet_len4(e0);
        lemma_dec_enc_packet(buf, pos + 4, elem_end, e0);
        lemma_dec_enc_elems(buf, elem_end, end, rest, acc.push(e0));
        assert(acc.push(e0) + rest =~= acc + content) by {
            assert(content =~= seq![e0] + rest);
        }
    }
}

/// The codec pair agrees bit for bit: decoding the encoding of any
/// well-formed packet yields exactly that packet and consumes every byte.
pub proof fn lemma_codec_roundtrip(p: OscPacketView)
    requires
        packet_wf(p),
    ensures
        dec_packet(enc_packet(p), 0, enc_packet(p).len() as int) == Ok::<
            (OscPacketView, int),
            DecodeError,
        >((p, enc_packet(p).len() as int)),
{
    let e = enc_packet(p);
    assert(e.subrange(0, e.len() as int) =~= e);
    lemma_dec_enc_packet(e, 0, e.len() as int, p);
}

/// Arguments are well formed when each element is.
proof fn lemma_args_wf_elementwise(s: Seq<OscTypeView>)
    requires
        forall|i: int| 0 <= i < s.len() ==> type_wf(#[trigger] s[i]),
    ensures
        args_wf(s),
    decreases s,
{
    if s.len() > 0 {
        assert(forall|i: int|
            0 <= i < s.drop_first().len() ==> type_wf(#[trigger] s.drop_first()[i]));
        lemma_args_wf_elementwise(s.drop_first());
    }
}

/// The strings a VMC message carries onto the wire: the joint, key or bone
/// name must be free of NUL characters to survive a NUL-terminated field.
pub open spec fn vmc_strings_wf(v: crate::message::VmcMessageView) -> bool {
    match v {
        crate::message::VmcMessageView::BoneTransform(b) => str_wf(b.bone),
        crate::message::VmcMessageView::DeviceTransform(d) => str_wf(d.joint),
        crate::message::VmcMessageView::BlendShape(b) => str_wf(b.key),
        _ => true,
    }
}

/// The OSC form of a well-formed VMC message is a well-formed packet.
#[verifier::rlimit(100)]
#[verifier::spinoff_prover]
proof fn lemma_vmc_packet_wf(v: crate::message::VmcMessageView)
    requires
        vmc_strings_wf(v),
    ensures
        packet_wf(OscPacketView::Message(crate::message::vmc_to_osc(v))),
{
    reveal_strlit("/VMC/Ext/Root/Pos");
    reveal_strlit("/VMC/Ext/Bone/Pos");
    reveal_strlit("/VMC/Ext/Hmd/Pos");
    reveal_strlit("/VMC/Ext/Hmd/Pos/Local");
    reveal_strlit("/VMC/Ext/Con/Pos");
    reveal_strlit("/VMC/Ext/Con/Pos/Local");
    reveal_strlit("/VMC/Ext/Tra/Pos");
    reveal_strlit("/VMC/Ext/Tra/Pos/Local");
    reveal_strlit("/VMC/Ext/Blend/Val");
    reveal_strlit("/VMC/Ext/Blend/Apply");
    reveal_strlit("/VMC/Ext/OK");
    reveal_strlit("/VMC/Ext/T");
    reveal_strlit("root");
    let m = crate::message::vmc_to_osc(v);
    match v {
        crate::message::VmcMessageView::DeviceTransform(d) => {
            match (d.device, d.local) {
                (crate::names::DeviceType::HMD, false) => {},
                (crate::names::DeviceType::HMD, true) => {},
                (crate::names::DeviceType::Controller, false) => {},
                (crate::names::DeviceType::Controller, true) => {},
                (crate::names::DeviceType::Tracker, false) => {},
                (crate::names::DeviceType::Tracker, true) => {},
            }
            lemma_args_wf_elementwise(m.args);
        },
        _ => {
            lemma_args_wf_elementwise(m.args);
        },
    }
}

/// End to end across both layers: the bytes of the OSC form of a
/// well-formed VMC message decode to exactly that OSC packet, and the
/// packet parses back to exactly that one message.
pub proof fn lemma_vmc_wire_roundtrip(v: crate::message::VmcMessageView)
    requires
        crate::message::vmc_wf(v),
        vmc_strings_wf(v),
    ensures
        ({
            let pkt = OscPacketView::Message(crate::message::vmc_to_osc(v));
            let bytes = enc_packet(pkt);
            &&& dec_packet(bytes, 0, bytes.len() as int) == Ok::<
                (OscPacketView, int),
                DecodeError,
            >((pkt, bytes.len() as int))
            &&& crate::message::parse_packet_view(pkt) == Ok::<
                Seq<crate::message::VmcMessageView>,
                crate::error::VmcErrorView,
            >(seq![v])
        }),
{
    lemma_vmc_packet_wf(v);
    lemma_codec_roundtrip(OscPacketView::Message(crate::message::vmc_to_osc(v)));
    crate::message::lemma_vmc_packet_roundtrip(v);
}

} // verus!
