//! The OSC encoder: turns a packet tree into its wire bytes, through a
//! generic output sink so the same logic serves an in-memory buffer and any
//! other destination that can write, reserve and backfill.
//!
//! The wire format is fixed by the `enc_*` specification functions: padded
//! strings, big-endian fixed-width numbers, type-tag strings, and bundles
//! whose elements are length-prefixed through a mark/place indirection.

use crate::osc::{osc_args_view, OSCMessage, OSCPacket, OSCType, OscMessageView, OscPacketView,
    OscTypeView};
use crate::wire::{be32, be64, pad4, zeros};
use vstd::prelude::*;

verus! {

broadcast use vstd::string::group_string_axioms;

/// Bytes followed by one to four NUL bytes, up to the next multiple of four:
/// the layout of every OSC string field.
pub open spec fn enc_padded(b: Seq<u8>) -> Seq<u8> {
    b + zeros(pad4(b.len() as int + 1) - b.len())
}

/// The wire form of a string: its UTF-8 bytes, NUL-terminated and padded.
pub open spec fn enc_str(s: Seq<char>) -> Seq<u8> {
    enc_padded(vstd::utf8::encode_utf8(s))
}

/// The type-tag characters of one argument; an array contributes brackets
/// around its elements' tags.
pub open spec fn enc_tags(t: OscTypeView) -> Seq<u8>
    decreases t,
{
    match t {
        OscTypeView::Int(_) => seq![('i' as u8)],
        OscTypeView::Float(_) => seq![('f' as u8)],
        OscTypeView::Str(_) => seq![('s' as u8)],
        OscTypeView::Blob(_) => seq![('b' as u8)],
        OscTypeView::Time(_) => seq![('t' as u8)],
        OscTypeView::Long(_) => seq![('h' as u8)],
        OscTypeView::Double(_) => seq![('d' as u8)],
        OscTypeView::Char(_) => seq![('c' as u8)],
        OscTypeView::Color(_) => seq![('r' as u8)],
        OscTypeView::Midi(_) => seq![('m' as u8)],
        OscTypeView::Bool(x) => if x {
            seq![('T' as u8)]
        } else {
            seq![('F' as u8)]
        },
        OscTypeView::Array(s) => seq![('[' as u8)] + enc_args_tags(s) + seq![(']' as u8)],
        OscTypeView::Nil => seq![('N' as u8)],
        OscTypeView::Inf => seq![('I' as u8)],
    }
}

/// The type-tag characters of an argument list, in order.
pub open spec fn enc_args_tags(s: Seq<OscTypeView>) -> Seq<u8>
    decreases s,
{
    if s.len() == 0 {
        Seq::empty()
    } else {
        enc_tags(s[0]) + enc_args_tags(s.drop_first())
    }
}

/// The payload bytes of one argument. `Bool`, `Nil` and `Inf` write nothing:
/// their type tag is their entire encoding. An array writes its elements'
/// payloads back to back with no extra framing.
pub open spec fn enc_data(t: OscTypeView) -> Seq<u8>
    decreases t,
{
    match t {
        OscTypeView::Int(x) => be32(x as u32),
        OscTypeView::Float(x) => be32(x),
        OscTypeView::Str(s) => enc_str(s),
        OscTypeView::Blob(b) => be32(b.len() as u32) + b + zeros(pad4(b.len() as int) - b.len()),
        OscTypeView::Time(t) => be32(t.seconds) + be32(t.fractional),
        OscTypeView::Long(x) => be64(x as u64),
        OscTypeView::Double(x) => be64(x),
        OscTypeView::Char(c) => be32(c as u32),
        OscTypeView::Color(c) => seq![c.red, c.green, c.blue, c.alpha],
        OscTypeView::Midi(m) => seq![m.port, m.status, m.data1, m.data2],
        OscTypeView::Bool(_) => Seq::empty(),
        OscTypeView::Array(s) => enc_args_data(s),
        OscTypeView::Nil => Seq::empty(),
        OscTypeView::Inf => Seq::empty(),
    }
}

/// The payload bytes of an argument list, in order.
pub open spec fn enc_args_data(s: Seq<OscTypeView>) -> Seq<u8>
    decreases s,
{
    if s.len() == 0 {
        Seq::empty()
    } else {
        enc_data(s[0]) + enc_args_data(s.drop_first())
    }
}

/// The wire form of a message: padded address, padded type-tag string
/// opened by a comma, then the payloads in tag order.
pub open spec fn enc_message(m: OscMessageView) -> Seq<u8> {
    enc_str(m.addr) + enc_padded(seq![(',' as u8)] + enc_args_tags(m.args)) + enc_args_data(m.args)
}

/// The wire form of a packet: a message, or the literal `#bundle` string,
/// the time tag, and the length-prefixed elements.
pub open spec fn enc_packet(p: OscPacketView) -> Seq<u8>
    decreases p,
{
    match p {
        OscPacketView::Message(m) => enc_message(m),
        OscPacketView::Bundle(b) => enc_str("#bundle"@) + be32(b.timetag.seconds) + be32(
            b.timetag.fractional,
        ) + enc_bundle_elems(b.content),
    }
}

/// The wire form of a bundle's elements: each preceded by its own byte
/// length as a big-endian 32-bit word.
pub open spec fn enc_bundle_elems(s: Seq<OscPacketView>) -> Seq<u8>
    decreases s,
{
    if s.len() == 0 {
        Seq::empty()
    } else {
        be32(enc_packet(s[0]).len() as u32) + enc_packet(s[0]) + enc_bundle_elems(s.drop_first())
    }
}

/// Tag encoding distributes over appending an argument.
pub proof fn lemma_enc_args_tags_push(s: Seq<OscTypeView>, t: OscTypeView)
    ensures
        enc_args_tags(s.push(t)) == enc_args_tags(s) + enc_tags(t),
    decreases s,
{
    if s.len() == 0 {
        assert(s.push(t)[0] == t);
        assert(s.push(t).drop_first() =~= Seq::<OscTypeView>::empty());
        assert(enc_args_tags(s.push(t).drop_first()) == Seq::<u8>::empty());
        assert(enc_args_tags(s.push(t)) =~= enc_args_tags(s) + enc_tags(t));
    } else {
        assert(s.push(t)[0] == s[0]);
        assert(s.push(t).drop_first() =~= s.drop_first().push(t));
        lemma_enc_args_tags_push(s.drop_first(), t);
        assert(enc_args_tags(s.push(t)) =~= enc_args_tags(s) + enc_tags(t));
    }
}

/// Payload encoding distributes over appending an argument.
pub proof fn lemma_enc_args_data_push(s: Seq<OscTypeView>, t: OscTypeView)
    ensures
        enc_args_data(s.push(t)) == enc_args_data(s) + enc_data(t),
    decreases s,
{
    if s.len() == 0 {
        assert(s.push(t)[0] == t);
        assert(s.push(t).drop_first() =~= Seq::<OscTypeView>::empty());
        assert(enc_args_data(s.push(t).drop_first()) == Seq::<u8>::empty());
        assert(enc_args_data(s.push(t)) =~= enc_args_data(s) + enc_data(t));
    } else {
        assert(s.push(t)[0] == s[0]);
        assert(s.push(t).drop_first() =~= s.drop_first().push(t));
        lemma_enc_args_data_push(s.drop_first(), t);
        assert(enc_args_data(s.push(t)) =~= enc_args_data(s) + enc_data(t));
    }
}

/// Element encoding distributes over appending a packet.
pub proof fn lemma_enc_bundle_elems_push(s: Seq<OscPacketView>, p: OscPacketView)
    ensures
        enc_bundle_elems(s.push(p)) == enc_bundle_elems(s) + be32(enc_packet(p).len() as u32)
            + enc_packet(p),
    decreases s,
{
    if s.len() == 0 {
        assert(s.push(p)[0] == p);
        assert(s.push(p).drop_first() =~= Seq::<OscPacketView>::empty());
        assert(enc_bundle_elems(s.push(p).drop_first()) == Seq::<u8>::empty());
        assert(enc_bundle_elems(s.push(p)) =~= enc_bundle_elems(s) + be32(
            enc_packet(p).len() as u32,
        ) + enc_packet(p));
    } else {
        assert(s.push(p)[0] == s[0]);
        assert(s.push(p).drop_first() =~= s.drop_first().push(p));
        lemma_enc_bundle_elems_push(s.drop_first(), p);
        assert(enc_bundle_elems(s.push(p)) =~= enc_bundle_elems(s) + be32(
            enc_packet(p).len() as u32,
        ) + enc_packet(p));
    }
}

/// A destination for encoded bytes. The buffer abstraction `buf` is the
/// sequence of bytes written so far; `mark` reserves a fixed-size run whose
/// contents `place` fills in once they are known, which is how a bundle
/// element's length comes to precede bytes whose size is only known after
/// they are written.
pub trait Output {
    /// The bytes written so far.
    spec fn buf(&self) -> Seq<u8>;

    /// The number of bytes written so far.
    fn out_len(&self) -> (r: usize)
        ensures
            r == self.buf().len(),
    ;

    /// Appends a block of data.
    fn write(&mut self, data: &[u8])
        ensures
            final(self).buf() == old(self).buf() + data@,
    ;

    /// Reserves `size` zero bytes and returns their starting position.
    fn mark(&mut self, size: usize) -> (m: usize)
        ensures
            final(self).buf() == old(self).buf() + zeros(size as int),
            m == old(self).buf().len(),
    ;

    /// Overwrites previously reserved bytes at position `m`.
    fn place(&mut self, m: usize, data: &[u8])
        requires
            m + data@.len() <= old(self).buf().len(),
        ensures
            final(self).buf() == old(self).buf().subrange(0, m as int) + data@ + old(
                self,
            ).buf().subrange(m + data@.len(), old(self).buf().len() as int),
    ;
}

impl Output for Vec<u8> {
    open spec fn buf(&self) -> Seq<u8> {
        self@
    }

    fn out_len(&self) -> (r: usize) {
        self.len()
    }

    fn write(&mut self, data: &[u8]) {
        self.extend_from_slice(data);
    }

    fn mark(&mut self, size: usize) -> (m: usize) {
        let start = self.len();
        let mut i: usize = 0;
        while i < size
            invariant
                0 <= i <= size,
                self@ == old(self)@ + zeros(i as int),
            decreases size - i,
        {
            let ghost prev = self@;
            self.push(0u8);
            proof {
                assert(self@ =~= old(self)@ + zeros(i + 1));
            }
            i += 1;
        }
        start
    }

    fn place(&mut self, m: usize, data: &[u8]) {
        let total = self.len();
        let mut i: usize = 0;
        while i < data.len()
            invariant
                0 <= i <= data@.len(),
                m + data@.len() <= old(self)@.len(),
                self@.len() == old(self)@.len(),
                total == old(self)@.len(),
                forall|j: int|
                    0 <= j < self@.len() ==> self@[j] == if m <= j < m + i {
                        data@[j - m]
                    } else {
                        old(self)@[j]
                    },
            decreases data@.len() - i,
        {
            self[m + i] = data[i];
            i += 1;
        }
        proof {
            assert(self@ =~= old(self)@.subrange(0, m as int) + data@ + old(self)@.subrange(
                m + data@.len(),
                old(self)@.len() as int,
            ));
        }
    }
}

/// Writes one byte.
fn write_byte<O: Output>(out: &mut O, b: u8)
    ensures
        final(out).buf() == old(out).buf() + seq![b],
{
    let mut v: Vec<u8> = Vec::new();
    v.push(b);
    out.write(v.as_slice());
    proof {
        assert(v@ =~= seq![b]);
    }
}

/// Writes the given string with its NUL terminator and padding, returning
/// the number of bytes written.
pub fn encode_string_into<O: Output>(s: &str, out: &mut O) -> (r: usize)
    ensures
        final(out).buf() == old(out).buf() + enc_str(s@),
        r == enc_str(s@).len(),
{
    let start = out.out_len();
    let bytes = s.as_bytes();
    let len = bytes.len();
    out.write(bytes);
    let padding: usize = 4 - (len % 4);
    let mut pad_buf: Vec<u8> = Vec::new();
    let mut i: usize = 0;
    while i < padding
        invariant
            0 <= i <= padding,
            pad_buf@ == zeros(i as int),
        decreases padding - i,
    {
        pad_buf.push(0u8);
        proof {
            assert(pad_buf@ =~= zeros(i + 1));
        }
        i += 1;
    }
    out.write(pad_buf.as_slice());
    proof {
        assert(pad4(len + 1) - len == padding);
        assert(final(out).buf() =~= old(out).buf() + enc_str(s@));
    }
    let end = out.out_len();
    end - start
}

/// The given string with its NUL terminator and padding, as a byte vector.
pub fn encode_string(s: &str) -> (r: Vec<u8>)
    ensures
        r@ == enc_str(s@),
{
    let mut bytes: Vec<u8> = Vec::new();
    let _ = encode_string_into(s, &mut bytes);
    proof {
        assert(Seq::<u8>::empty() + enc_str(s@) =~= enc_str(s@));
    }
    bytes
}

/// Writes the eight bytes of a time tag.
fn encode_time_tag_into<O: Output>(time: &crate::osc::OSCTime, out: &mut O)
    ensures
        final(out).buf() == old(out).buf() + be32(time.seconds) + be32(time.fractional),
{
    let secs = crate::wire::u32_be_bytes(time.seconds);
    out.write(secs.as_slice());
    let frac = crate::wire::u32_be_bytes(time.fractional);
    out.write(frac.as_slice());
}

/// Writes the type-tag characters of one argument.
#[verifier::loop_isolation(false)]
fn encode_arg_type<O: Output>(arg: &OSCType, out: &mut O)
    ensures
        final(out).buf() == old(out).buf() + enc_tags(arg@),
    decreases *arg,
{
    let ghost garg = *arg;
    match arg {
        OSCType::Int(_) => write_byte(out, ('i' as u8)),
        OSCType::Float(_) => write_byte(out, ('f' as u8)),
        OSCType::String(_) => write_byte(out, ('s' as u8)),
        OSCType::Blob(_) => write_byte(out, ('b' as u8)),
        OSCType::Time(_) => write_byte(out, ('t' as u8)),
        OSCType::Long(_) => write_byte(out, ('h' as u8)),
        OSCType::Double(_) => write_byte(out, ('d' as u8)),
        OSCType::Char(_) => write_byte(out, ('c' as u8)),
        OSCType::Color(_) => write_byte(out, ('r' as u8)),
        OSCType::Midi(_) => write_byte(out, ('m' as u8)),
        OSCType::Bool(x) => if *x {
            write_byte(out, ('T' as u8))
        } else {
            write_byte(out, ('F' as u8))
        },
        OSCType::Array(a) => {
            let ghost ga = *a;
            let ghost av = osc_args_view(a.content@);
            proof {
                crate::osc::lemma_osc_args_view(a.content@);
            }
            write_byte(out, ('[' as u8));
            let ghost base = out.buf();
            let mut i: usize = 0;
            while i < a.content.len()
                invariant
                    0 <= i <= a.content@.len(),
                    out.buf() == base + enc_args_tags(av.take(i as int)),
                decreases a.content@.len() - i,
            {
                proof {
                    assert(garg->Array_0 == ga);
                    assert(decreases_to!(garg => garg->Array_0));
                    assert(decreases_to!(ga => ga.content));
                    assert(decreases_to!(ga.content => ga.content@));
                    assert(decreases_to!(ga.content@ => ga.content@[i as int]));
                    assert(decreases_to!(garg => a.content@[i as int]));
                }
                let ghost prev = out.buf();
                encode_arg_type(&a.content[i], out);
                proof {
                    assert(av.take(i + 1) =~= av.take(i as int).push(av[i as int]));
                    lemma_enc_args_tags_push(av.take(i as int), av[i as int]);
                    assert(out.buf() =~= base + enc_args_tags(av.take(i + 1)));
                }
                i += 1;
            }
            proof {
                assert(av.take(av.len() as int) =~= av);
            }
            write_byte(out, (']' as u8));
            proof {
                assert(out.buf() =~= old(out).buf() + enc_tags(garg@));
            }
        },
        OSCType::Nil => write_byte(out, ('N' as u8)),
        OSCType::Inf => write_byte(out, ('I' as u8)),
    }
}

/// Writes the payload bytes of one argument.
#[verifier::loop_isolation(false)]
fn encode_arg_data<O: Output>(arg: &OSCType, out: &mut O)
    ensures
        final(out).buf() == old(out).buf() + enc_data(arg@),
    decreases *arg,
{
    let ghost garg = *arg;
    match arg {
        OSCType::Int(x) => {
            let b = crate::wire::u32_be_bytes(*x as u32);
            out.write(b.as_slice());
        },
        OSCType::Float(x) => {
            let b = crate::wire::u32_be_bytes(*x);
            out.write(b.as_slice());
        },
        OSCType::String(s) => {
            let _ = encode_string_into(s.as_str(), out);
        },
        OSCType::Blob(x) => {
            let len = x.len();
            let b = crate::wire::u32_be_bytes(len as u32);
            out.write(b.as_slice());
            out.write(x.as_slice());
            let padding: usize = if len % 4 == 0 {
                0
            } else {
                4 - (len % 4)
            };
            let mut pad_buf: Vec<u8> = Vec::new();
            let mut i: usize = 0;
            while i < padding
                invariant
                    0 <= i <= padding,
                    pad_buf@ == zeros(i as int),
                decreases padding - i,
            {
                pad_buf.push(0u8);
                proof {
                    assert(pad_buf@ =~= zeros(i + 1));
                }
                i += 1;
            }
            out.write(pad_buf.as_slice());
            proof {
                assert(padding == pad4(len as int) - len);
                assert(out.buf() =~= old(out).buf() + enc_data(garg@));
            }
        },
        OSCType::Time(t) => encode_time_tag_into(t, out),
        OSCType::Long(x) => {
            let b = crate::wire::u64_be_bytes(*x as u64);
            out.write(b.as_slice());
        },
        OSCType::Double(x) => {
            let b = crate::wire::u64_be_bytes(*x);
            out.write(b.as_slice());
        },
        OSCType::Char(c) => {
            let b = crate::wire::u32_be_bytes(*c as u32);
            out.write(b.as_slice());
        },
        OSCType::Color(c) => {
            let mut v: Vec<u8> = Vec::new();
            v.push(c.red);
            v.push(c.green);
            v.push(c.blue);
            v.push(c.alpha);
            out.write(v.as_slice());
            proof {
                assert(v@ =~= enc_data(garg@));
            }
        },
        OSCType::Midi(m) => {
            let mut v: Vec<u8> = Vec::new();
            v.push(m.port);
            v.push(m.status);
            v.push(m.data1);
            v.push(m.data2);
            out.write(v.as_slice());
            proof {
                assert(v@ =~= enc_data(garg@));
            }
        },
        OSCType::Bool(_) => {
            proof {
                assert(old(out).buf() + enc_data(garg@) =~= out.buf());
            }
        },
        OSCType::Array(a) => {
            let ghost ga = *a;
            let ghost av = osc_args_view(a.content@);
            proof {
                crate::osc::lemma_osc_args_view(a.content@);
            }
            let ghost base = out.buf();
            let mut i: usize = 0;
            while i < a.content.len()
                invariant
                    0 <= i <= a.content@.len(),
                    out.buf() == base + enc_args_data(av.take(i as int)),
                decreases a.content@.len() - i,
            {
                proof {
                    assert(garg->Array_0 == ga);
                    assert(decreases_to!(garg => garg->Array_0));
                    assert(decreases_to!(ga => ga.content));
                    assert(decreases_to!(ga.content => ga.content@));
                    assert(decreases_to!(ga.content@ => ga.content@[i as int]));
                    assert(decreases_to!(garg => a.content@[i as int]));
                }
                encode_arg_data(&a.content[i], out);
                proof {
                    assert(av.take(i + 1) =~= av.take(i as int).push(av[i as int]));
                    lemma_enc_args_data_push(av.take(i as int), av[i as int]);
                    assert(out.buf() =~= base + enc_args_data(av.take(i + 1)));
                }
                i += 1;
            }
            proof {
                assert(av.take(av.len() as int) =~= av);
                assert(out.buf() =~= old(out).buf() + enc_data(garg@));
            }
        },
        OSCType::Nil => {
            proof {
                assert(old(out).buf() + enc_data(garg@) =~= out.buf());
            }
        },
        OSCType::Inf => {
            proof {
                assert(old(out).buf() + enc_data(garg@) =~= out.buf());
            }
        },
    }
}

/// Writes one message: padded address, padded comma-led type-tag string,
/// then the payloads.
#[verifier::loop_isolation(false)]
fn encode_message<O: Output>(msg: &OSCMessage, out: &mut O)
    ensures
        final(out).buf() == old(out).buf() + enc_message(msg@),
{
    let ghost av = osc_args_view(msg.args@);
    proof {
        crate::osc::lemma_osc_args_view(msg.args@);
    }
    let _ = encode_string_into(msg.addr.as_str(), out);
    let tag_start = out.out_len();
    write_byte(out, (',' as u8));
    let ghost tag_base = out.buf();
    let mut i: usize = 0;
    while i < msg.args.len()
        invariant
            0 <= i <= msg.args@.len(),
            out.buf() == tag_base + enc_args_tags(av.take(i as int)),
        decreases msg.args@.len() - i,
    {
        encode_arg_type(&msg.args[i], out);
        proof {
            assert(av.take(i + 1) =~= av.take(i as int).push(av[i as int]));
            lemma_enc_args_tags_push(av.take(i as int), av[i as int]);
            assert(out.buf() =~= tag_base + enc_args_tags(av.take(i + 1)));
        }
        i += 1;
    }
    proof {
        assert(av.take(av.len() as int) =~= av);
    }
    let cur = out.out_len();
    let tag_len = cur - tag_start;
    let padding: usize = 4 - (tag_len % 4);
    let mut pad_buf: Vec<u8> = Vec::new();
    let mut j: usize = 0;
    while j < padding
        invariant
            0 <= j <= padding,
            pad_buf@ == zeros(j as int),
        decreases padding - j,
    {
        pad_buf.push(0u8);
        proof {
            assert(pad_buf@ =~= zeros(j + 1));
        }
        j += 1;
    }
    out.write(pad_buf.as_slice());
    proof {
        let tags = seq![(',' as u8)] + enc_args_tags(av);
        assert(tag_len == tags.len());
        assert(padding == pad4(tags.len() as int + 1) - tags.len());
        assert(out.buf() =~= old(out).buf() + enc_str(msg@.addr) + enc_padded(tags));
    }
    let ghost data_base = out.buf();
    let mut k: usize = 0;
    while k < msg.args.len()
        invariant
            0 <= k <= msg.args@.len(),
            out.buf() == data_base + enc_args_data(av.take(k as int)),
        decreases msg.args@.len() - k,
    {
        encode_arg_data(&msg.args[k], out);
        proof {
            assert(av.take(k + 1) =~= av.take(k as int).push(av[k as int]));
            lemma_enc_args_data_push(av.take(k as int), av[k as int]);
            assert(out.buf() =~= data_base + enc_args_data(av.take(k + 1)));
        }
        k += 1;
    }
    proof {
        assert(av.take(av.len() as int) =~= av);
        assert(out.buf() =~= old(out).buf() + enc_message(msg@));
    }
}

/// Writes one packet. A bundle element's length must precede bytes whose
/// size is unknown until written, so each element reserves a four-byte run,
/// writes itself, and backfills the run with the element's byte count.
#[verifier::loop_isolation(false)]
fn encode_packet<O: Output>(packet: &OSCPacket, out: &mut O)
    ensures
        final(out).buf() == old(out).buf() + enc_packet(packet@),
    decreases *packet,
{
    let ghost gpkt = *packet;
    match packet {
        OSCPacket::Message(m) => encode_message(m, out),
        OSCPacket::Bundle(b) => {
            let ghost gb = *b;
            let ghost cv = crate::osc::osc_packets_view(b.content@);
            proof {
                crate::osc::lemma_osc_packets_view(b.content@);
            }
            let _ = encode_string_into("#bundle", out);
            encode_time_tag_into(&b.timetag, out);
            let ghost base = out.buf();
            let mut i: usize = 0;
            while i < b.content.len()
                invariant
                    0 <= i <= b.content@.len(),
                    out.buf() == base + enc_bundle_elems(cv.take(i as int)),
                decreases b.content@.len() - i,
            {
                proof {
                    assert(gpkt->Bundle_0 == gb);
                    assert(decreases_to!(gpkt => gpkt->Bundle_0));
                    assert(decreases_to!(gb => gb.content));
                    assert(decreases_to!(gb.content => gb.content@));
                    assert(decreases_to!(gb.content@ => gb.content@[i as int]));
                    assert(decreases_to!(gpkt => b.content@[i as int]));
                }
                let ghost before = out.buf();
                let m = out.mark(4);
                let elem_start = out.out_len();
                encode_packet(&b.content[i], out);
                let elem_end = out.out_len();
                let length = elem_end - elem_start;
                let len_bytes = crate::wire::u32_be_bytes(length as u32);
                proof {
                    assert(out.buf() == before + zeros(4) + enc_packet(cv[i as int]));
                    assert(m + 4 <= out.buf().len());
                }
                out.place(m, len_bytes.as_slice());
                proof {
                    let e = enc_packet(cv[i as int]);
                    assert(length == e.len());
                    assert(out.buf() =~= before + be32(e.len() as u32) + e);
                    assert(cv.take(i + 1) =~= cv.take(i as int).push(cv[i as int]));
                    lemma_enc_bundle_elems_push(cv.take(i as int), cv[i as int]);
                    assert(out.buf() =~= base + enc_bundle_elems(cv.take(i + 1)));
                }
                i += 1;
            }
            proof {
                assert(cv.take(cv.len() as int) =~= cv);
                assert(out.buf() =~= old(out).buf() + enc_packet(gpkt@));
            }
        },
    }
}

/// Writes a packet to the given output and returns the number of bytes
/// written.
pub fn encode_into<O: Output>(packet: &OSCPacket, out: &mut O) -> (r: usize)
    ensures
        final(out).buf() == old(out).buf() + enc_packet(packet@),
        r == enc_packet(packet@).len(),
{
    let start = out.out_len();
    encode_packet(packet, out);
    let end = out.out_len();
    end - start
}

/// Encodes a packet as a byte vector: exactly the wire form given by
/// [`enc_packet`]. An in-memory buffer cannot fail, so the result is always
/// the encoded bytes.
pub fn encode(packet: &OSCPacket) -> (r: crate::error::OSCResult<Vec<u8>>)
    ensures
        r matches Ok(b) && b@ == enc_packet(packet@),
{
    let mut bytes: Vec<u8> = Vec::new();
    let _ = encode_into(packet, &mut bytes);
    proof {
        assert(Seq::<u8>::empty() + enc_packet(packet@) =~= enc_packet(packet@));
    }
    Ok(bytes)
}

} // verus!
