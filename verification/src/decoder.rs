//! The OSC decoder: turns a byte buffer into a packet tree.
//!
//! The wire grammar is fixed by the `dec_*` specification functions, which
//! the executable decoder matches exactly. All padding is computed against
//! the absolute offset in the outermost buffer — a nested read inside a
//! bundle element aligns to the element's position in the outer buffer —
//! so every function carries the whole buffer and a `pos..end` window
//! rather than a sub-slice.

use crate::error::{OSCError, OSCResult, OscErrorView};
use crate::osc::{OSCArray, OSCBundle, OSCColor, OSCMessage, OSCMidiMessage, OSCPacket, OSCTime,
    OSCType, OscBundleView, OscMessageView, OscPacketView, OscTypeView};
use crate::wire::{be32_val, be64_val, pad4};
use vstd::prelude::*;
use vstd::slice::{slice_subrange, slice_to_vec};
use vstd::utf8::{decode_utf8, is_scalar, valid_utf8};

verus! {

broadcast use vstd::string::group_string_axioms;

/// Common MTU size for ethernet.
pub const MTU: usize = 1536;

/// The ways decoding can fail, at specification level.
pub ghost enum DecodeError {
    /// A packet region with no bytes at all.
    Empty,
    /// An address that neither starts with `/` nor is exactly `#bundle`.
    BadAddress,
    /// Bytes missing where a field was expected.
    Incomplete,
    /// A string field whose bytes are not valid UTF-8; carries the bytes.
    BadUtf8(Seq<u8>),
    /// A type-tag string that does not start with a comma.
    BadTagString,
    /// A type tag outside the implemented set.
    UnknownTag,
    /// A `]` tag with no matching `[`.
    BadArrayNesting,
    /// A char argument that is not a Unicode scalar value.
    BadChar,
    /// A bundle element shorter than its declared length, or trailing bytes
    /// that cannot hold an element.
    BadBundle,
}

/// Which executable error an abstract decode error may surface as.
pub open spec fn err_matches(e: OscErrorView, k: DecodeError) -> bool {
    match k {
        DecodeError::Empty => e matches OscErrorView::BadPacket(_),
        DecodeError::BadAddress => e matches OscErrorView::BadPacket(_),
        DecodeError::Incomplete => e matches OscErrorView::BadPacket(_),
        DecodeError::BadUtf8(b) => e == OscErrorView::StringError(b),
        DecodeError::BadTagString => e matches OscErrorView::BadMessage(_),
        DecodeError::UnknownTag => e matches OscErrorView::BadArg(_),
        DecodeError::BadArrayNesting => e matches OscErrorView::BadMessage(_),
        DecodeError::BadChar => e matches OscErrorView::BadArg(_),
        DecodeError::BadBundle => e matches OscErrorView::BadBundle(_),
    }
}

/// The position of the first NUL byte in `pos..end`, or `end` if there is
/// none.
pub open spec fn find_nul(buf: Seq<u8>, pos: int, end: int) -> int
    decreases end - pos,
{
    if pos >= end {
        end
    } else if buf[pos] == 0 {
        pos
    } else {
        find_nul(buf, pos + 1, end)
    }
}

pub proof fn lemma_find_nul(buf: Seq<u8>, pos: int, end: int)
    requires
        pos <= end,
    ensures
        pos <= find_nul(buf, pos, end) <= end,
        find_nul(buf, pos, end) < end ==> buf[find_nul(buf, pos, end)] == 0,
        forall|j: int| pos <= j < find_nul(buf, pos, end) ==> buf[j] != 0,
    decreases end - pos,
{
    if pos < end && buf[pos] != 0 {
        lemma_find_nul(buf, pos + 1, end);
    }
}

/// A string field: bytes up to the first NUL, then NUL padding up to the
/// next multiple of four counted from the buffer start. Fails when no NUL
/// arrives before `end`, when the padding would run past `end`, or when the
/// bytes are not valid UTF-8.
pub open spec fn dec_str(buf: Seq<u8>, pos: int, end: int) -> Result<
    (Seq<char>, int),
    DecodeError,
> {
    let n = find_nul(buf, pos, end);
    if n == end {
        Err(DecodeError::Incomplete)
    } else {
        let stop = pad4(n + 1);
        if stop > end {
            Err(DecodeError::Incomplete)
        } else {
            let bytes = buf.subrange(pos, n);
            if valid_utf8(bytes) {
                Ok((decode_utf8(bytes), stop))
            } else {
                Err(DecodeError::BadUtf8(bytes))
            }
        }
    }
}

pub proof fn lemma_dec_str_pos(buf: Seq<u8>, pos: int, end: int)
    requires
        0 <= pos <= end,
    ensures
        dec_str(buf, pos, end) matches Ok(r) ==> pos < r.1 <= end,
{
    lemma_find_nul(buf, pos, end);
    let n = find_nul(buf, pos, end);
    if n < end {
        crate::wire::lemma_pad4(n + 1);
    }
}

/// One argument, selected by its type tag. `T`, `F`, `N` and `I` consume no
/// bytes; every other tag reads a fixed-width field or a padded variable
/// field at the current absolute position.
pub open spec fn dec_arg(buf: Seq<u8>, pos: int, end: int, tag: char) -> Result<
    (OscTypeView, int),
    DecodeError,
> {
    if tag == 'f' {
        if pos + 4 <= end {
            Ok((OscTypeView::Float(be32_val(buf[pos], buf[pos + 1], buf[pos + 2], buf[pos + 3])),
            pos + 4))
        } else {
            Err(DecodeError::Incomplete)
        }
    } else if tag == 'd' {
        if pos + 8 <= end {
            Ok((OscTypeView::Double(be64_val(buf[pos], buf[pos + 1], buf[pos + 2], buf[pos + 3],
            buf[pos + 4], buf[pos + 5], buf[pos + 6], buf[pos + 7])), pos + 8))
        } else {
            Err(DecodeError::Incomplete)
        }
    } else if tag == 'i' {
        if pos + 4 <= end {
            Ok((OscTypeView::Int(be32_val(buf[pos], buf[pos + 1], buf[pos + 2], buf[pos + 3])
            as i32), pos + 4))
        } else {
            Err(DecodeError::Incomplete)
        }
    } else if tag == 'h' {
        if pos + 8 <= end {
            Ok((OscTypeView::Long(be64_val(buf[pos], buf[pos + 1], buf[pos + 2], buf[pos + 3],
            buf[pos + 4], buf[pos + 5], buf[pos + 6], buf[pos + 7]) as i64), pos + 8))
        } else {
            Err(DecodeError::Incomplete)
        }
    } else if tag == 's' {
        match dec_str(buf, pos, end) {
            Ok((s, p)) => Ok((OscTypeView::Str(s), p)),
            Err(e) => Err(e),
        }
    } else if tag == 't' {
        if pos + 8 <= end {
            Ok((OscTypeView::Time(OSCTime {
                seconds: be32_val(buf[pos], buf[pos + 1], buf[pos + 2], buf[pos + 3]),
                fractional: be32_val(buf[pos + 4], buf[pos + 5], buf[pos + 6], buf[pos + 7]),
            }), pos + 8))
        } else {
            Err(DecodeError::Incomplete)
        }
    } else if tag == 'b' {
        if pos + 4 <= end {
            let size = be32_val(buf[pos], buf[pos + 1], buf[pos + 2], buf[pos + 3]) as int;
            let data_end = pos + 4 + size;
            if data_end <= end && pad4(data_end) <= end {
                Ok((OscTypeView::Blob(buf.subrange(pos + 4, data_end)), pad4(data_end)))
            } else {
                Err(DecodeError::Incomplete)
            }
        } else {
            Err(DecodeError::Incomplete)
        }
    } else if tag == 'r' {
        if pos + 4 <= end {
            Ok((OscTypeView::Color(OSCColor {
                red: buf[pos],
                green: buf[pos + 1],
                blue: buf[pos + 2],
                alpha: buf[pos + 3],
            }), pos + 4))
        } else {
            Err(DecodeError::Incomplete)
        }
    } else if tag == 'm' {
        if pos + 4 <= end {
            Ok((OscTypeView::Midi(OSCMidiMessage {
                port: buf[pos],
                status: buf[pos + 1],
                data1: buf[pos + 2],
                data2: buf[pos + 3],
            }), pos + 4))
        } else {
            Err(DecodeError::Incomplete)
        }
    } else if tag == 'T' {
        Ok((OscTypeView::Bool(true), pos))
    } else if tag == 'F' {
        Ok((OscTypeView::Bool(false), pos))
    } else if tag == 'N' {
        Ok((OscTypeView::Nil, pos))
    } else if tag == 'I' {
        Ok((OscTypeView::Inf, pos))
    } else if tag == 'c' {
        if pos + 4 <= end {
            let v = be32_val(buf[pos], buf[pos + 1], buf[pos + 2], buf[pos + 3]);
            if is_scalar(v) {
                Ok((OscTypeView::Char(v as char), pos + 4))
            } else {
                Err(DecodeError::BadChar)
            }
        } else {
            Err(DecodeError::Incomplete)
        }
    } else {
        Err(DecodeError::UnknownTag)
    }
}

pub proof fn lemma_dec_arg_pos(buf: Seq<u8>, pos: int, end: int, tag: char)
    requires
        0 <= pos <= end,
    ensures
        dec_arg(buf, pos, end, tag) matches Ok(r) ==> pos <= r.1 <= end,
{
    lemma_dec_str_pos(buf, pos, end);
    if tag == 'b' && pos + 4 <= end {
        let size = be32_val(buf[pos], buf[pos + 1], buf[pos + 2], buf[pos + 3]) as int;
        crate::wire::lemma_pad4(pos + 4 + size);
    }
}

/// The argument list of a message, one argument per tag character past the
/// comma. A `[` tag stashes the arguments built so far and opens a fresh
/// frame; the matching `]` wraps the frame as an array and appends it to
/// the stashed frame; a `]` with no stashed frame is an error. Tags left
/// open at the end simply yield the innermost frame.
pub open spec fn dec_args(
    buf: Seq<u8>,
    pos: int,
    end: int,
    tags: Seq<char>,
    i: int,
    stack: Seq<Seq<OscTypeView>>,
    cur: Seq<OscTypeView>,
) -> Result<(Seq<OscTypeView>, int), DecodeError>
    decreases tags.len() - i,
{
    if i >= tags.len() {
        Ok((cur, pos))
    } else {
        let t = tags[i];
        if t == '[' {
            dec_args(buf, pos, end, tags, i + 1, stack.push(cur), Seq::empty())
        } else if t == ']' {
            if stack.len() == 0 {
                Err(DecodeError::BadArrayNesting)
            } else {
                dec_args(
                    buf,
                    pos,
                    end,
                    tags,
                    i + 1,
                    stack.drop_last(),
                    stack.last().push(OscTypeView::Array(cur)),
                )
            }
        } else {
            match dec_arg(buf, pos, end, t) {
                Err(e) => Err(e),
                Ok((v, p2)) => dec_args(buf, p2, end, tags, i + 1, stack, cur.push(v)),
            }
        }
    }
}

pub proof fn lemma_dec_args_pos(
    buf: Seq<u8>,
    pos: int,
    end: int,
    tags: Seq<char>,
    i: int,
    stack: Seq<Seq<OscTypeView>>,
    cur: Seq<OscTypeView>,
)
    requires
        0 <= pos <= end,
    ensures
        dec_args(buf, pos, end, tags, i, stack, cur) matches Ok(r) ==> pos <= r.1 <= end,
    decreases tags.len() - i,
{
    if i < tags.len() {
        let t = tags[i];
        if t == '[' {
            lemma_dec_args_pos(buf, pos, end, tags, i + 1, stack.push(cur), Seq::empty());
        } else if t == ']' {
            if stack.len() > 0 {
                lemma_dec_args_pos(
                    buf,
                    pos,
                    end,
                    tags,
                    i + 1,
                    stack.drop_last(),
                    stack.last().push(OscTypeView::Array(cur)),
                );
            }
        } else {
            lemma_dec_arg_pos(buf, pos, end, t);
            match dec_arg(buf, pos, end, t) {
                Err(_) => {},
                Ok((v, p2)) => {
                    lemma_dec_args_pos(buf, p2, end, tags, i + 1, stack, cur.push(v));
                },
            }
        }
    }
}

/// A message after its address: the type-tag string, which must open with a
/// comma, then one argument per remaining tag character. A tag string of
/// just the comma means no arguments.
pub open spec fn dec_message(buf: Seq<u8>, addr: Seq<char>, pos: int, end: int) -> Result<
    (OscMessageView, int),
    DecodeError,
> {
    match dec_str(buf, pos, end) {
        Err(e) => Err(e),
        Ok((tags, p2)) => {
            if tags.len() == 0 || tags[0] != ',' {
                Err(DecodeError::BadTagString)
            } else if tags.len() > 1 {
                match dec_args(buf, p2, end, tags.drop_first(), 0, Seq::empty(), Seq::empty()) {
                    Err(e) => Err(e),
                    Ok((args, p3)) => Ok((OscMessageView { addr, args }, p3)),
                }
            } else {
                Ok((OscMessageView { addr, args: Seq::empty() }, p2))
            }
        },
    }
}

pub proof fn lemma_dec_message_pos(buf: Seq<u8>, addr: Seq<char>, pos: int, end: int)
    requires
        0 <= pos <= end,
    ensures
        dec_message(buf, addr, pos, end) matches Ok(r) ==> pos < r.1 <= end,
{
    lemma_dec_str_pos(buf, pos, end);
    match dec_str(buf, pos, end) {
        Err(_) => {},
        Ok((tags, p2)) => {
            if tags.len() >= 1 && tags[0] == ',' && tags.len() > 1 {
                lemma_dec_args_pos(
                    buf,
                    p2,
                    end,
                    tags.drop_first(),
                    0,
                    Seq::empty(),
                    Seq::empty(),
                );
            }
        },
    }
}

/// A whole packet in `pos..end`: a padded address string, then a message if
/// the address starts with `/`, or a bundle if the address is exactly
/// `#bundle`; anything else is an error, as is an empty region.
pub open spec fn dec_packet(buf: Seq<u8>, pos: int, end: int) -> Result<
    (OscPacketView, int),
    DecodeError,
>
    decreases end - pos, 2int,
{
    if pos >= end {
        Err(DecodeError::Empty)
    } else {
        match dec_str(buf, pos, end) {
            Err(e) => Err(e),
            Ok((addr, p2)) => if addr.len() > 0 && addr[0] == '/' {
                match dec_message(buf, addr, p2, end) {
                    Err(e) => Err(e),
                    Ok((m, p3)) => Ok((OscPacketView::Message(m), p3)),
                }
            } else if addr == "#bundle"@ {
                if p2 <= pos {
                    // a padded string always advances the position; this
                    // branch only keeps the recursion well founded
                    Err(DecodeError::Incomplete)
                } else {
                    dec_bundle(buf, p2, end)
                }
            } else {
                Err(DecodeError::BadAddress)
            },
        }
    }
}

/// A bundle after its `#bundle` tag: an eight-byte time tag, then elements
/// until the region is exhausted.
pub open spec fn dec_bundle(buf: Seq<u8>, pos: int, end: int) -> Result<
    (OscPacketView, int),
    DecodeError,
>
    decreases end - pos, 1int,
{
    if pos + 8 > end {
        Err(DecodeError::Incomplete)
    } else {
        let timetag = OSCTime {
            seconds: be32_val(buf[pos], buf[pos + 1], buf[pos + 2], buf[pos + 3]),
            fractional: be32_val(buf[pos + 4], buf[pos + 5], buf[pos + 6], buf[pos + 7]),
        };
        match dec_bundle_elems(buf, pos + 8, end, Seq::empty()) {
            Err(e) => Err(e),
            Ok(content) => Ok((OscPacketView::Bundle(OscBundleView { timetag, content }), end)),
        }
    }
}

/// The elements of a bundle: repeatedly a four-byte big-endian length, then
/// exactly that many bytes holding one nested packet, until the region is
/// exhausted. An element shorter than its declared length, a declared
/// length past the region, or a nested packet that fails to decode is a
/// bundle error; bytes the nested packet leaves unread inside its element
/// are ignored.
pub open spec fn dec_bundle_elems(
    buf: Seq<u8>,
    pos: int,
    end: int,
    acc: Seq<OscPacketView>,
) -> Result<Seq<OscPacketView>, DecodeError>
    decreases end - pos, 0int,
{
    if pos >= end {
        Ok(acc)
    } else if pos + 4 > end {
        Err(DecodeError::BadBundle)
    } else {
        let size = be32_val(buf[pos], buf[pos + 1], buf[pos + 2], buf[pos + 3]) as int;
        let elem_end = pos + 4 + size;
        if elem_end > end {
            Err(DecodeError::BadBundle)
        } else {
            match dec_packet(buf, pos + 4, elem_end) {
                Err(e) => Err(e),
                Ok((p, _)) => dec_bundle_elems(buf, elem_end, end, acc.push(p)),
            }
        }
    }
}

/// A stream-framed packet: a four-byte big-endian length, then the packet.
/// A declared length larger than the whole buffer means the packet has not
/// fully arrived yet — `Ok(None)` rather than an error — matching how a
/// byte-stream transport delivers partial data.
pub open spec fn dec_tcp(buf: Seq<u8>) -> Result<Option<(OscPacketView, int)>, DecodeError> {
    if buf.len() < 4 {
        Err(DecodeError::Incomplete)
    } else {
        let declared = be32_val(buf[0], buf[1], buf[2], buf[3]) as int;
        if declared > buf.len() {
            Ok(None)
        } else {
            match dec_packet(buf, 4, buf.len() as int) {
                Err(e) => Err(e),
                Ok((p, pos)) => Ok(Some((p, pos))),
            }
        }
    }
}

// ---------------------------------------------------------------------------
// The executable decoder.
// ---------------------------------------------------------------------------

/// Relies on `String::from_utf8`: `Ok` exactly on valid UTF-8, returning
/// the string those bytes encode; `Err` hands the bytes back unchanged.
#[verifier::external_body]
fn string_from_utf8(bytes: Vec<u8>) -> (r: Result<String, Vec<u8>>)
    ensures
        match r {
            Ok(s) => valid_utf8(bytes@) && s@ == decode_utf8(bytes@),
            Err(b) => !valid_utf8(bytes@) && b@ == bytes@,
        },
{
    String::from_utf8(bytes).map_err(|e| e.into_bytes())
}

/// Relies on `char::from_u32`: `Some` exactly for Unicode scalar values,
/// whose numeric value is the argument.
#[verifier::external_body]
fn char_from_u32(v: u32) -> (r: Option<char>)
    ensures
        match r {
            Some(c) => (c as u32) == v,
            None => !is_scalar(v),
        },
{
    char::from_u32(v)
}

/// The position of the first NUL byte in `pos..end`, or `end`.
fn find_nul_exec(buf: &[u8], pos: usize, end: usize) -> (r: usize)
    requires
        pos <= end <= buf@.len(),
    ensures
        r == find_nul(buf@, pos as int, end as int),
        pos <= r <= end,
{
    proof {
        lemma_find_nul(buf@, pos as int, end as int);
    }
    let mut i: usize = pos;
    while i < end
        invariant
            pos <= i <= end <= buf@.len(),
            find_nul(buf@, pos as int, end as int) == find_nul(buf@, i as int, end as int),
        decreases end - i,
    {
        if buf[i] == 0 {
            return i;
        }
        i += 1;
    }
    end
}

/// Reads a NUL-terminated string padded to the next multiple of four.
fn read_osc_string(buf: &[u8], pos: usize, end: usize) -> (r: Result<(String, usize), OSCError>)
    requires
        pos <= end <= buf@.len(),
    ensures
        match r {
            Ok((s, p)) => dec_str(buf@, pos as int, end as int) == Ok::<
                (Seq<char>, int),
                DecodeError,
            >((s@, p as int)) && pos < p <= end,
            Err(e) => dec_str(buf@, pos as int, end as int) matches Err(k) && err_matches(e@, k),
        },
{
    proof {
        lemma_find_nul(buf@, pos as int, end as int);
        lemma_dec_str_pos(buf@, pos as int, end as int);
    }
    let n = find_nul_exec(buf, pos, end);
    if n == end {
        return Err(OSCError::BadPacket("Incomplete data"));
    }
    proof {
        crate::wire::lemma_pad4(n + 1);
    }
    let skip: usize = 4 - (n % 4);
    if skip > end - n {
        return Err(OSCError::BadPacket("Incomplete data"));
    }
    let stop = n + skip;
    proof {
        assert(stop == pad4(n + 1));
    }
    let bytes = slice_to_vec(slice_subrange(buf, pos, n));
    match string_from_utf8(bytes) {
        Ok(s) => Ok((s, stop)),
        Err(b) => Err(OSCError::StringError(b)),
    }
}

/// Reads one argument, selected by its type tag.
fn read_osc_arg(buf: &[u8], pos: usize, end: usize, tag: char) -> (r: Result<
    (OSCType, usize),
    OSCError,
>)
    requires
        pos <= end <= buf@.len(),
    ensures
        match r {
            Ok((v, p)) => dec_arg(buf@, pos as int, end as int, tag) == Ok::<
                (OscTypeView, int),
                DecodeError,
            >((v@, p as int)) && pos <= p <= end,
            Err(e) => dec_arg(buf@, pos as int, end as int, tag) matches Err(k) && err_matches(
                e@,
                k,
            ),
        },
{
    if tag == 'f' {
        if end - pos >= 4 {
            Ok((OSCType::Float(crate::wire::read_be_u32(buf, pos)), pos + 4))
        } else {
            Err(OSCError::BadPacket("Incomplete data"))
        }
    } else if tag == 'd' {
        if end - pos >= 8 {
            Ok((OSCType::Double(crate::wire::read_be_u64(buf, pos)), pos + 8))
        } else {
            Err(OSCError::BadPacket("Incomplete data"))
        }
    } else if tag == 'i' {
        if end - pos >= 4 {
            Ok((OSCType::Int(#[verifier::truncate] (crate::wire::read_be_u32(buf, pos) as i32)), pos + 4))
        } else {
            Err(OSCError::BadPacket("Incomplete data"))
        }
    } else if tag == 'h' {
        if end - pos >= 8 {
            Ok((OSCType::Long(#[verifier::truncate] (crate::wire::read_be_u64(buf, pos) as i64)), pos + 8))
        } else {
            Err(OSCError::BadPacket("Incomplete data"))
        }
    } else if tag == 's' {
        match read_osc_string(buf, pos, end) {
            Ok((s, p)) => Ok((OSCType::String(s), p)),
            Err(e) => Err(e),
        }
    } else if tag == 't' {
        if end - pos >= 8 {
            let seconds = crate::wire::read_be_u32(buf, pos);
            let fractional = crate::wire::read_be_u32(buf, pos + 4);
            Ok((OSCType::Time(OSCTime { seconds, fractional }), pos + 8))
        } else {
            Err(OSCError::BadPacket("Incomplete data"))
        }
    } else if tag == 'b' {
        if end - pos >= 4 {
            let size = crate::wire::read_be_u32(buf, pos) as usize;
            if size > end - (pos + 4) {
                return Err(OSCError::BadPacket("Incomplete data"));
            }
            let data_end = pos + 4 + size;
            proof {
                crate::wire::lemma_pad4(data_end as int);
            }
            let rem: usize = data_end % 4;
            let skip: usize = if rem == 0 { 0 } else { 4 - rem };
            if skip > end - data_end {
                return Err(OSCError::BadPacket("Incomplete data"));
            }
            let stop = data_end + skip;
            proof {
                assert(stop == pad4(data_end as int));
            }
            let bytes = slice_to_vec(slice_subrange(buf, pos + 4, data_end));
            Ok((OSCType::Blob(bytes), stop))
        } else {
            Err(OSCError::BadPacket("Incomplete data"))
        }
    } else if tag == 'r' {
        if end - pos >= 4 {
            let c = OSCColor {
                red: buf[pos],
                green: buf[pos + 1],
                blue: buf[pos + 2],
                alpha: buf[pos + 3],
            };
            Ok((OSCType::Color(c), pos + 4))
        } else {
            Err(OSCError::BadPacket("Incomplete data"))
        }
    } else if tag == 'm' {
        if end - pos >= 4 {
            let m = OSCMidiMessage {
                port: buf[pos],
                status: buf[pos + 1],
                data1: buf[pos + 2],
                data2: buf[pos + 3],
            };
            Ok((OSCType::Midi(m), pos + 4))
        } else {
            Err(OSCError::BadPacket("Incomplete data"))
        }
    } else if tag == 'T' {
        Ok((OSCType::Bool(true), pos))
    } else if tag == 'F' {
        Ok((OSCType::Bool(false), pos))
    } else if tag == 'N' {
        Ok((OSCType::Nil, pos))
    } else if tag == 'I' {
        Ok((OSCType::Inf, pos))
    } else if tag == 'c' {
        if end - pos >= 4 {
            let v = crate::wire::read_be_u32(buf, pos);
            match char_from_u32(v) {
                Some(c) => {
                    proof {
                        vstd::utf8::char_is_scalar(c);
                        vstd::utf8::char_u32_cast(c, v);
                    }
                    Ok((OSCType::Char(c), pos + 4))
                },
                None => Err(OSCError::BadArg("Argument is not a char!".to_owned())),
            }
        } else {
            Err(OSCError::BadPacket("Incomplete data"))
        }
    } else {
        Err(OSCError::BadArg("Type tag is not implemented".to_owned()))
    }
}

/// The element-wise view of a stack of argument frames.
pub open spec fn stack_views(s: Seq<Vec<OSCType>>) -> Seq<Seq<OscTypeView>>
    decreases s,
{
    if s.len() == 0 {
        Seq::empty()
    } else {
        seq![crate::osc::osc_args_view(s[0]@)] + stack_views(s.drop_first())
    }
}

/// The element-wise reading of [`stack_views`].
pub proof fn lemma_stack_views(s: Seq<Vec<OSCType>>)
    ensures
        stack_views(s).len() == s.len(),
        forall|i: int|
            0 <= i < s.len() ==> stack_views(s)[i] == crate::osc::osc_args_view(s[i]@),
    decreases s,
{
    if s.len() > 0 {
        lemma_stack_views(s.drop_first());
    }
}

/// Stack views distribute over pushing a frame.
pub proof fn lemma_stack_views_push(s: Seq<Vec<OSCType>>, v: Vec<OSCType>)
    ensures
        stack_views(s.push(v)) == stack_views(s).push(crate::osc::osc_args_view(v@)),
    decreases s,
{
    if s.len() == 0 {
        assert(s.push(v)[0] == v);
        assert(s.push(v).drop_first() =~= Seq::<Vec<OSCType>>::empty());
        assert(stack_views(s) == Seq::<Seq<OscTypeView>>::empty());
        assert(stack_views(s.push(v).drop_first()) == Seq::<Seq<OscTypeView>>::empty());
        assert(stack_views(s.push(v)) =~= stack_views(s).push(crate::osc::osc_args_view(v@)));
    } else {
        assert(s.push(v)[0] == s[0]);
        assert(s.push(v).drop_first() =~= s.drop_first().push(v));
        lemma_stack_views_push(s.drop_first(), v);
        assert(stack_views(s.push(v)) =~= stack_views(s).push(crate::osc::osc_args_view(v@)));
    }
}

/// Reads one argument per tag character, keeping an explicit stack of open
/// array frames so that nesting depth never grows the call stack.
#[verifier::loop_isolation(false)]
#[verifier::rlimit(60)]
fn read_osc_args(buf: &[u8], pos: usize, end: usize, tags: &Vec<char>) -> (r: Result<
    (Vec<OSCType>, usize),
    OSCError,
>)
    requires
        pos <= end <= buf@.len(),
    ensures
        match r {
            Ok((args, p)) => dec_args(
                buf@,
                pos as int,
                end as int,
                tags@,
                0,
                Seq::empty(),
                Seq::empty(),
            ) == Ok::<(Seq<OscTypeView>, int), DecodeError>((crate::osc::osc_args_view(args@),
            p as int)) && pos <= p <= end,
            Err(e) => dec_args(buf@, pos as int, end as int, tags@, 0, Seq::empty(), Seq::empty())
                matches Err(k) && err_matches(e@, k),
        },
{
    let mut cur: Vec<OSCType> = Vec::new();
    let mut stack: Vec<Vec<OSCType>> = Vec::new();
    let mut p: usize = pos;
    let mut i: usize = 0;
    proof {
        assert(stack_views(stack@) == Seq::<Seq<OscTypeView>>::empty());
        assert(crate::osc::osc_args_view(cur@) == Seq::<OscTypeView>::empty());
    }
    while i < tags.len()
        invariant
            0 <= i <= tags@.len(),
            pos <= p <= end,
            dec_args(buf@, pos as int, end as int, tags@, 0, Seq::empty(), Seq::empty())
                == dec_args(
                buf@,
                p as int,
                end as int,
                tags@,
                i as int,
                stack_views(stack@),
                crate::osc::osc_args_view(cur@),
            ),
        decreases tags@.len() - i,
    {
        let t = tags[i];
        if t == '[' {
            let ghost old_stack = stack@;
            let ghost old_cur = cur@;
            let frame = cur;
            stack.push(frame);
            cur = Vec::new();
            proof {
                lemma_stack_views_push(old_stack, frame);
                assert(crate::osc::osc_args_view(cur@) == Seq::<OscTypeView>::empty());
            }
        } else if t == ']' {
            let ghost old_stack = stack@;
            let ghost old_cur = cur@;
            match stack.pop() {
                Some(stashed) => {
                    proof {
                        lemma_stack_views(old_stack);
                        assert(old_stack.last() == stashed);
                        assert(stack_views(old_stack).last() == crate::osc::osc_args_view(
                            stashed@,
                        ));
                        assert(stack_views(stack@) =~= stack_views(old_stack).drop_last()) by {
                            lemma_stack_views(stack@);
                            lemma_stack_views(old_stack);
                            assert(stack@ =~= old_stack.drop_last());
                            assert forall|j: int| 0 <= j < stack@.len() implies stack_views(
                                stack@,
                            )[j] == stack_views(old_stack).drop_last()[j] by {
                                assert(stack@[j] == old_stack[j]);
                            }
                        }
                    }
                    let arr = OSCType::Array(OSCArray { content: cur });
                    cur = stashed;
                    let ghost mid_cur = cur@;
                    cur.push(arr);
                    proof {
                        crate::osc::lemma_osc_args_view_push(mid_cur, arr);
                    }
                },
                None => {
                    proof {
                        lemma_stack_views(old_stack);
                    }
                    return Err(OSCError::BadMessage("Encountered ] outside array"));
                },
            }
        } else {
            match read_osc_arg(buf, p, end, t) {
                Ok((v, p2)) => {
                    let ghost old_cur = cur@;
                    let ghost gv = v;
                    cur.push(v);
                    proof {
                        crate::osc::lemma_osc_args_view_push(old_cur, gv);
                    }
                    p = p2;
                },
                Err(e) => {
                    return Err(e);
                },
            }
        }
        i += 1;
    }
    Ok((cur, p))
}

/// The characters of a string, in order.
fn str_chars(s: &str, from: usize) -> (r: Vec<char>)
    requires
        from <= s@.len(),
    ensures
        r@ == s@.subrange(from as int, s@.len() as int),
{
    let n = s.unicode_len();
    let mut r: Vec<char> = Vec::new();
    let mut i: usize = from;
    while i < n
        invariant
            from <= i <= n == s@.len(),
            r@ =~= s@.subrange(from as int, i as int),
        decreases n - i,
    {
        let c = s.get_char(i);
        r.push(c);
        proof {
            assert(r@ =~= s@.subrange(from as int, i + 1));
        }
        i += 1;
    }
    proof {
        assert(r@ =~= s@.subrange(from as int, s@.len() as int));
    }
    r
}

/// Reads a message after its address: the comma-led type-tag string, then
/// the arguments.
fn decode_message(buf: &[u8], addr: String, pos: usize, end: usize) -> (r: Result<
    (OSCMessage, usize),
    OSCError,
>)
    requires
        pos <= end <= buf@.len(),
    ensures
        match r {
            Ok((m, p)) => dec_message(buf@, addr@, pos as int, end as int) == Ok::<
                (OscMessageView, int),
                DecodeError,
            >((m@, p as int)) && pos < p <= end,
            Err(e) => dec_message(buf@, addr@, pos as int, end as int) matches Err(k)
                && err_matches(e@, k),
        },
{
    let (tags, p2) = match read_osc_string(buf, pos, end) {
        Ok(r) => r,
        Err(e) => {
            return Err(e);
        },
    };
    let tag_count = tags.as_str().unicode_len();
    if tag_count == 0 {
        return Err(OSCError::BadMessage("Type tag string must begin with a comma"));
    }
    let c0 = tags.as_str().get_char(0);
    if c0 != ',' {
        return Err(OSCError::BadMessage("Type tag string must begin with a comma"));
    }
    if tag_count > 1 {
        let tag_chars = str_chars(tags.as_str(), 1);
        proof {
            assert(tag_chars@ =~= tags@.drop_first());
        }
        match read_osc_args(buf, p2, end, &tag_chars) {
            Ok((args, p3)) => Ok((OSCMessage { addr, args }, p3)),
            Err(e) => Err(e),
        }
    } else {
        let args: Vec<OSCType> = Vec::new();
        proof {
            assert(crate::osc::osc_args_view(args@) == Seq::<OscTypeView>::empty());
        }
        Ok((OSCMessage { addr, args }, p2))
    }
}

/// Reads a whole packet from `pos..end`: a message or a bundle, selected by
/// the address string.
#[verifier::loop_isolation(false)]
#[verifier::rlimit(60)]
fn decode_packet(buf: &[u8], pos: usize, end: usize) -> (r: Result<(OSCPacket, usize), OSCError>)
    requires
        pos <= end <= buf@.len(),
    ensures
        match r {
            Ok((p, q)) => dec_packet(buf@, pos as int, end as int) == Ok::<
                (OscPacketView, int),
                DecodeError,
            >((p@, q as int)) && pos <= q <= end,
            Err(e) => dec_packet(buf@, pos as int, end as int) matches Err(k) && err_matches(
                e@,
                k,
            ),
        },
    decreases end - pos, 2int,
{
    if pos >= end {
        return Err(OSCError::BadPacket("Empty packet."));
    }
    let (addr, p2) = match read_osc_string(buf, pos, end) {
        Ok(r) => r,
        Err(e) => {
            return Err(e);
        },
    };
    let addr_len = addr.as_str().unicode_len();
    if addr_len > 0 && addr.as_str().get_char(0) == '/' {
        match decode_message(buf, addr, p2, end) {
            Ok((m, p3)) => Ok((OSCPacket::Message(m), p3)),
            Err(e) => Err(e),
        }
    } else if crate::strutil::str_eq(addr.as_str(), "#bundle") {
        decode_bundle(buf, p2, end)
    } else {
        Err(OSCError::BadPacket("Invalid message address or bundle tag"))
    }
}

/// Reads a bundle after its tag: the time tag, then the length-prefixed
/// elements until the region is exhausted.
#[verifier::loop_isolation(false)]
#[verifier::rlimit(60)]
fn decode_bundle(buf: &[u8], pos: usize, end: usize) -> (r: Result<(OSCPacket, usize), OSCError>)
    requires
        pos <= end <= buf@.len(),
    ensures
        match r {
            Ok((p, q)) => dec_bundle(buf@, pos as int, end as int) == Ok::<
                (OscPacketView, int),
                DecodeError,
            >((p@, q as int)) && pos <= q <= end,
            Err(e) => dec_bundle(buf@, pos as int, end as int) matches Err(k) && err_matches(
                e@,
                k,
            ),
        },
    decreases end - pos, 1int,
{
    if end - pos < 8 {
        return Err(OSCError::BadPacket("Incomplete data"));
    }
    let seconds = crate::wire::read_be_u32(buf, pos);
    let fractional = crate::wire::read_be_u32(buf, pos + 4);
    let timetag = OSCTime { seconds, fractional };
    let mut content: Vec<OSCPacket> = Vec::new();
    let mut p: usize = pos + 8;
    proof {
        assert(crate::osc::osc_packets_view(content@) == Seq::<OscPacketView>::empty());
    }
    while p < end
        invariant
            pos + 8 <= p <= end,
            dec_bundle_elems(buf@, pos + 8, end as int, Seq::empty()) == dec_bundle_elems(
                buf@,
                p as int,
                end as int,
                crate::osc::osc_packets_view(content@),
            ),
        decreases end - p,
    {
        if end - p < 4 {
            return Err(OSCError::BadBundle("Bundle shorter than expected!".to_owned()));
        }
        let size = crate::wire::read_be_u32(buf, p) as usize;
        if size > end - (p + 4) {
            return Err(OSCError::BadBundle("Bundle shorter than expected!".to_owned()));
        }
        let elem_end = p + 4 + size;
        match decode_packet(buf, p + 4, elem_end) {
            Ok((pkt, _leftover)) => {
                let ghost old_content = content@;
                let ghost gpkt = pkt;
                content.push(pkt);
                proof {
                    crate::osc::lemma_osc_packets_view_push(old_content, gpkt);
                }
                p = elem_end;
            },
            Err(e) => {
                return Err(e);
            },
        }
    }
    Ok((OSCPacket::Bundle(OSCBundle { timetag, content }), end))
}

/// A decoded packet always leaves the position strictly past where it
/// started, and within the region.
pub proof fn lemma_dec_packet_pos(buf: Seq<u8>, pos: int, end: int)
    requires
        0 <= pos <= end,
    ensures
        dec_packet(buf, pos, end) matches Ok(r) ==> pos < r.1 <= end,
{
    lemma_dec_str_pos(buf, pos, end);
    if pos < end {
        match dec_str(buf, pos, end) {
            Err(_) => {},
            Ok((addr, p2)) => {
                lemma_dec_message_pos(buf, addr, p2, end);
            },
        }
    }
}

/// Decodes a datagram: the packet at the start of the buffer, and the bytes
/// remaining after it.
pub fn decode_udp(msg: &[u8]) -> (r: OSCResult<(&[u8], OSCPacket)>)
    ensures
        match r {
            Ok((rest, p)) => dec_packet(msg@, 0, msg@.len() as int) matches Ok(pr) && p@ == pr.0
                && rest@ == msg@.subrange(pr.1, msg@.len() as int),
            Err(e) => dec_packet(msg@, 0, msg@.len() as int) matches Err(k) && err_matches(e@, k),
        },
{
    let len = msg.len();
    match decode_packet(msg, 0, len) {
        Ok((p, q)) => Ok((slice_subrange(msg, q, len), p)),
        Err(e) => Err(e),
    }
}

/// Decodes the first stream-framed packet: a four-byte big-endian length,
/// then the packet. A declared length beyond the buffered bytes yields
/// `None` — the caller must buffer more and retry — rather than an error,
/// distinguishing incomplete from malformed data.
pub fn decode_tcp(msg: &[u8]) -> (r: OSCResult<(&[u8], Option<OSCPacket>)>)
    ensures
        match r {
            Ok((rest, Some(p))) => dec_tcp(msg@) matches Ok(pr) && pr matches Some(pv) && p@
                == pv.0 && rest@ == msg@.subrange(pv.1, msg@.len() as int),
            Ok((rest, None)) => dec_tcp(msg@) == Ok::<Option<(OscPacketView, int)>, DecodeError>(
                None,
            ) && rest@ == msg@,
            Err(e) => dec_tcp(msg@) matches Err(k) && err_matches(e@, k),
        },
{
    let len = msg.len();
    if len < 4 {
        return Err(OSCError::BadPacket("Incomplete data"));
    }
    let declared = crate::wire::read_be_u32(msg, 0);
    if declared as u64 > len as u64 {
        return Ok((msg, None));
    }
    match decode_packet(msg, 4, len) {
        Ok((p, q)) => Ok((slice_subrange(msg, q, len), Some(p))),
        Err(e) => Err(e),
    }
}

/// Repeated stream decoding: every length-prefixed packet in the buffer, in
/// order, with the bytes remaining after the last complete packet. Stops
/// quietly at an incomplete trailing packet; fails on a malformed one.
pub open spec fn dec_tcp_vec(buf: Seq<u8>) -> Result<
    (Seq<OscPacketView>, Seq<u8>),
    DecodeError,
>
    decreases buf.len(),
{
    match dec_tcp(buf) {
        Err(e) => Err(e),
        Ok(None) => Ok((Seq::empty(), buf)),
        Ok(Some((p, pos))) => {
            if 0 < pos <= buf.len() {
                let rest = buf.subrange(pos, buf.len() as int);
                if rest.len() == 0 {
                    Ok((seq![p], rest))
                } else {
                    match dec_tcp_vec(rest) {
                        Err(e) => Err(e),
                        Ok((ps, rem)) => Ok((seq![p] + ps, rem)),
                    }
                }
            } else {
                // a packet always advances the position; this branch only
                // keeps the recursion well founded
                Err(DecodeError::Incomplete)
            }
        },
    }
}

/// Decodes every stream-framed packet in the buffer; see [`dec_tcp_vec`].
#[verifier::loop_isolation(false)]
pub fn decode_tcp_vec(msg: &[u8]) -> (r: OSCResult<(&[u8], Vec<OSCPacket>)>)
    ensures
        match r {
            Ok((rest, ps)) => dec_tcp_vec(msg@) == Ok::<
                (Seq<OscPacketView>, Seq<u8>),
                DecodeError,
            >((crate::osc::osc_packets_view(ps@), rest@)),
            Err(e) => dec_tcp_vec(msg@) matches Err(k) && err_matches(e@, k),
        },
{
    let mut input: &[u8] = msg;
    let mut packets: Vec<OSCPacket> = Vec::new();
    proof {
        assert(crate::osc::osc_packets_view(packets@) == Seq::<OscPacketView>::empty());
    }
    loop
        invariant
            ({
                match dec_tcp_vec(input@) {
                    Ok(pr) => dec_tcp_vec(msg@) == Ok::<
                        (Seq<OscPacketView>, Seq<u8>),
                        DecodeError,
                    >((crate::osc::osc_packets_view(packets@) + pr.0, pr.1)),
                    Err(e) => dec_tcp_vec(msg@) matches Err(k) && k == e,
                }
            }),
        decreases input@.len(),
    {
        let ghost before = input@;
        match decode_tcp(input) {
            Err(e) => {
                return Err(e);
            },
            Ok((rest, None)) => {
                proof {
                    assert(crate::osc::osc_packets_view(packets@) + Seq::<
                        OscPacketView,
                    >::empty() =~= crate::osc::osc_packets_view(packets@));
                }
                return Ok((input, packets));
            },
            Ok((rest, Some(p))) => {
                proof {
                    lemma_dec_packet_pos(before, 4, before.len() as int);
                }
                let ghost old_packets = packets@;
                let ghost gp = p;
                packets.push(p);
                proof {
                    crate::osc::lemma_osc_packets_view_push(old_packets, gp);
                }
                input = rest;
                if input.len() == 0 {
                    proof {
                        let pv = dec_tcp(before)->Ok_0->Some_0;
                        assert(crate::osc::osc_packets_view(packets@) + Seq::<
                            OscPacketView,
                        >::empty() =~= crate::osc::osc_packets_view(packets@));
                        assert(seq![pv.0] + Seq::<OscPacketView>::empty() =~= seq![pv.0]);
                        assert(crate::osc::osc_packets_view(old_packets) + seq![pv.0]
                            =~= crate::osc::osc_packets_view(packets@));
                    }
                    return Ok((input, packets));
                }
                proof {
                    let pv = dec_tcp(before)->Ok_0->Some_0;
                    if dec_tcp_vec(input@) is Ok {
                        let pr = dec_tcp_vec(input@)->Ok_0;
                        assert(crate::osc::osc_packets_view(old_packets) + (seq![pv.0] + pr.0)
                            =~= crate::osc::osc_packets_view(packets@) + pr.0);
                    }
                }
            },
        }
    }
}

} // verus!
