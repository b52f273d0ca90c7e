//! The OSC data model: argument values, messages, bundles, packets and time
//! tags, together with their mathematical views.
//!
//! Every floating-point argument is carried as its IEEE-754 bit pattern
//! (`u32` for single precision, `u64` for double precision): the wire format
//! stores exactly those bits big-endian, so the codec is bit-exact without
//! performing any floating-point arithmetic.

use vstd::arithmetic::div_mod::{lemma_div_is_ordered, lemma_fundamental_div_mod,
    lemma_fundamental_div_mod_converse_div};
use vstd::prelude::*;

verus! {

/// Seconds between the OSC epoch (1900-01-01) and the unix epoch (1970-01-01).
pub const UNIX_OFFSET: u64 = 2_208_988_800;

/// A time tag: seconds since 1900-01-01 and a binary fraction of a second.
///
/// Conversions to and from unix time are only defined for instants at or
/// after the unix epoch, so the seconds of any convertible tag are at least
/// [`UNIX_OFFSET`].
#[derive(Debug, Clone, Copy, PartialEq, Eq, Structural, PartialOrd, Ord, Hash)]
pub struct OSCTime {
    pub seconds: u32,
    pub fractional: u32,
}

/// The reason a wall-clock instant could not be converted to an [`OSCTime`].
#[derive(Debug, Clone, Copy, PartialEq, Eq, Structural)]
pub enum OSCTimeErrorKind {
    /// The instant predates the unix epoch.
    BeforeEpoch,
    /// The instant does not fit in 32-bit seconds counted from 1900.
    Overflow,
}

/// An error returned by conversions involving [`OSCTime`].
#[derive(Debug, Clone, Copy, PartialEq, Eq, Structural)]
pub struct OSCTimeError(pub OSCTimeErrorKind);

/// The fractional field encoding a sub-second count of nanoseconds:
/// `nanos / 10^9` scaled by `2^32`, rounded to nearest.
pub open spec fn frac_of_nanos(nanos: int) -> int {
    (nanos * 4_294_967_296 + 500_000_000) / 1_000_000_000
}

/// The sub-second count of nanoseconds encoded by a fractional field:
/// `frac / 2^32` scaled by `10^9`, rounded to nearest.
pub open spec fn nanos_of_frac(frac: int) -> int {
    (frac * 1_000_000_000 + 2_147_483_648) / 4_294_967_296
}

impl OSCTime {
    /// Converts a wall-clock instant, given as whole seconds and sub-second
    /// nanoseconds since the unix epoch, into a time tag. Fails exactly when
    /// the shifted second count does not fit in 32 bits.
    pub fn try_from_unix(secs: u64, nanos: u32) -> (r: Result<OSCTime, OSCTimeError>)
        requires
            nanos < 1_000_000_000,
        ensures
            match r {
                Ok(t) => {
                    &&& secs + 2_208_988_800 <= u32::MAX
                    &&& t.seconds == secs + 2_208_988_800
                    &&& t.fractional == frac_of_nanos(nanos as int)
                },
                Err(e) => {
                    &&& secs + 2_208_988_800 > u32::MAX
                    &&& e == (OSCTimeError(OSCTimeErrorKind::Overflow))
                },
            },
    {
        if secs > 0xffff_ffff - 2_208_988_800 {
            return Err(OSCTimeError(OSCTimeErrorKind::Overflow));
        }
        let seconds = (secs + 2_208_988_800) as u32;
        let scaled: u64 = (nanos as u64) * 4_294_967_296;
        let fractional64: u64 = (scaled + 500_000_000) / 1_000_000_000;
        proof {
            assert((nanos as int) * 4_294_967_296 <= 999_999_999int * 4_294_967_296) by (
            nonlinear_arith)
                requires
                    nanos <= 999_999_999,
            ;
            lemma_div_is_ordered(
                (nanos as int) * 4_294_967_296 + 500_000_000,
                999_999_999int * 4_294_967_296 + 500_000_000,
                1_000_000_000,
            );
            assert((999_999_999int * 4_294_967_296 + 500_000_000) / 1_000_000_000
                == 4_294_967_292);
        }
        let fractional = fractional64 as u32;
        Ok(OSCTime { seconds, fractional })
    }

    /// Converts a time tag back to whole seconds and sub-second nanoseconds
    /// since the unix epoch. Tags before the unix epoch are not convertible.
    pub fn to_unix(&self) -> (r: (u64, u32))
        requires
            self.seconds >= 2_208_988_800,
        ensures
            r.1 < 1_000_000_000,
            ({
                let n = nanos_of_frac(self.fractional as int);
                if n >= 1_000_000_000 {
                    r.0 == self.seconds - 2_208_988_800 + 1 && r.1 == 0
                } else {
                    r.0 == self.seconds - 2_208_988_800 && r.1 == n
                }
            }),
    {
        let scaled: u64 = (self.fractional as u64) * 1_000_000_000;
        let nanos64: u64 = (scaled + 2_147_483_648) / 4_294_967_296;
        proof {
            assert((self.fractional as int) * 1_000_000_000 <= 4_294_967_295int * 1_000_000_000)
                by (nonlinear_arith)
                requires
                    self.fractional <= 4_294_967_295,
            ;
            lemma_div_is_ordered(
                (self.fractional as int) * 1_000_000_000 + 2_147_483_648,
                4_294_967_295int * 1_000_000_000 + 2_147_483_648,
                4_294_967_296,
            );
            assert((4_294_967_295int * 1_000_000_000 + 2_147_483_648) / 4_294_967_296
                == 1_000_000_000);
        }
        let base = (self.seconds as u64) - 2_208_988_800;
        if nanos64 >= 1_000_000_000 {
            (base + 1, 0)
        } else {
            (base, nanos64 as u32)
        }
    }
}

/// Round-tripping a sub-second nanosecond count through the fractional field
/// gives the count back exactly: the two rounded divisions cancel.
pub proof fn lemma_nanos_roundtrip(nanos: int)
    requires
        0 <= nanos < 1_000_000_000,
    ensures
        nanos_of_frac(frac_of_nanos(nanos)) == nanos,
{
    let scaled = nanos * 4_294_967_296 + 500_000_000;
    let f = frac_of_nanos(nanos);
    lemma_fundamental_div_mod(scaled, 1_000_000_000);
    let m = scaled % 1_000_000_000;
    assert(f * 1_000_000_000 == nanos * 4_294_967_296 + 500_000_000 - m);
    let x = f * 1_000_000_000 + 2_147_483_648;
    let r = 2_647_483_648 - m;
    assert(x == nanos * 4_294_967_296 + r);
    lemma_fundamental_div_mod_converse_div(x, 4_294_967_296, nanos, r);
}

/// Converting a wall-clock instant to a time tag and back is exact at
/// nanosecond granularity, in particular well within a 5-nanosecond error.
pub proof fn lemma_time_roundtrip(secs: u64, nanos: u32, t: OSCTime)
    requires
        nanos < 1_000_000_000,
        secs + 2_208_988_800 <= u32::MAX,
        t.seconds == secs + 2_208_988_800,
        t.fractional == frac_of_nanos(nanos as int),
    ensures
        nanos_of_frac(t.fractional as int) == nanos,
        t.seconds - 2_208_988_800 == secs,
{
    lemma_nanos_roundtrip(nanos as int);
    assert(0 <= frac_of_nanos(nanos as int)) by {
        lemma_div_is_ordered(0, (nanos as int) * 4_294_967_296 + 500_000_000, 1_000_000_000);
        assert((nanos as int) * 4_294_967_296 >= 0) by (nonlinear_arith)
            requires
                nanos >= 0,
        ;
    }
}

/// An RGBA color argument.
#[derive(Debug, Clone, Copy, PartialEq, Eq, Structural, Hash)]
pub struct OSCColor {
    pub red: u8,
    pub green: u8,
    pub blue: u8,
    pub alpha: u8,
}

/// The four data bytes of a MIDI message argument.
#[derive(Debug, Clone, Copy, PartialEq, Eq, Structural, Hash)]
pub struct OSCMidiMessage {
    pub port: u8,
    pub status: u8,
    pub data1: u8,
    pub data2: u8,
}

/// An OSC argument value: the closed set of wire types.
///
/// `Float` and `Double` carry IEEE-754 bit patterns; `Bool`, `Nil` and `Inf`
/// carry no payload beyond their type tag; `Array` nests arbitrarily.
#[derive(Debug, PartialEq)]
pub enum OSCType {
    Int(i32),
    /// A single-precision float, as its IEEE-754 bit pattern.
    Float(u32),
    String(String),
    Blob(Vec<u8>),
    Time(OSCTime),
    Long(i64),
    /// A double-precision float, as its IEEE-754 bit pattern.
    Double(u64),
    Char(char),
    Color(OSCColor),
    Midi(OSCMidiMessage),
    Bool(bool),
    Array(OSCArray),
    Nil,
    Inf,
}

/// An ordered sequence of arguments nested as a single argument.
#[derive(Debug, PartialEq)]
pub struct OSCArray {
    pub content: Vec<OSCType>,
}

/// An OSC message: an address starting with `/` and its arguments.
#[derive(Debug, PartialEq)]
pub struct OSCMessage {
    pub addr: String,
    pub args: Vec<OSCType>,
}

/// An OSC bundle: a time tag and the packets grouped under it.
#[derive(Debug, PartialEq)]
pub struct OSCBundle {
    pub timetag: OSCTime,
    pub content: Vec<OSCPacket>,
}

/// A single message or a bundle of nested packets.
#[derive(Debug, PartialEq)]
pub enum OSCPacket {
    Message(OSCMessage),
    Bundle(OSCBundle),
}

/// The mathematical value of an [`OSCType`]: strings and blobs become
/// sequences, arrays become sequences of values.
pub ghost enum OscTypeView {
    Int(i32),
    Float(u32),
    Str(Seq<char>),
    Blob(Seq<u8>),
    Time(OSCTime),
    Long(i64),
    Double(u64),
    Char(char),
    Color(OSCColor),
    Midi(OSCMidiMessage),
    Bool(bool),
    Array(Seq<OscTypeView>),
    Nil,
    Inf,
}

/// The mathematical value of an [`OSCMessage`].
pub ghost struct OscMessageView {
    pub addr: Seq<char>,
    pub args: Seq<OscTypeView>,
}

/// The mathematical value of an [`OSCBundle`].
pub ghost struct OscBundleView {
    pub timetag: OSCTime,
    pub content: Seq<OscPacketView>,
}

/// The mathematical value of an [`OSCPacket`].
pub ghost enum OscPacketView {
    Message(OscMessageView),
    Bundle(OscBundleView),
}

/// The view of a single argument value.
pub open spec fn osc_type_view(t: OSCType) -> OscTypeView
    decreases t,
{
    match t {
        OSCType::Int(x) => OscTypeView::Int(x),
        OSCType::Float(x) => OscTypeView::Float(x),
        OSCType::String(s) => OscTypeView::Str(s@),
        OSCType::Blob(b) => OscTypeView::Blob(b@),
        OSCType::Time(t) => OscTypeView::Time(t),
        OSCType::Long(x) => OscTypeView::Long(x),
        OSCType::Double(x) => OscTypeView::Double(x),
        OSCType::Char(c) => OscTypeView::Char(c),
        OSCType::Color(c) => OscTypeView::Color(c),
        OSCType::Midi(m) => OscTypeView::Midi(m),
        OSCType::Bool(b) => OscTypeView::Bool(b),
        OSCType::Array(a) => OscTypeView::Array(osc_args_view(a.content@)),
        OSCType::Nil => OscTypeView::Nil,
        OSCType::Inf => OscTypeView::Inf,
    }
}

/// The view of a sequence of argument values, element by element.
pub open spec fn osc_args_view(s: Seq<OSCType>) -> Seq<OscTypeView>
    decreases s,
{
    if s.len() == 0 {
        Seq::empty()
    } else {
        seq![osc_type_view(s[0])] + osc_args_view(s.drop_first())
    }
}

/// The element-wise reading of [`osc_args_view`].
pub proof fn lemma_osc_args_view(s: Seq<OSCType>)
    ensures
        osc_args_view(s).len() == s.len(),
        forall|i: int| 0 <= i < s.len() ==> osc_args_view(s)[i] == osc_type_view(s[i]),
    decreases s,
{
    if s.len() > 0 {
        lemma_osc_args_view(s.drop_first());
    }
}

/// Views distribute over pushing an element.
pub proof fn lemma_osc_args_view_push(s: Seq<OSCType>, t: OSCType)
    ensures
        osc_args_view(s.push(t)) == osc_args_view(s).push(osc_type_view(t)),
    decreases s,
{
    if s.len() == 0 {
        assert(s.push(t)[0] == t);
        assert(s.push(t).drop_first() =~= Seq::<OSCType>::empty());
        assert(osc_args_view(s) == Seq::<OscTypeView>::empty());
        assert(osc_args_view(s.push(t)) == seq![osc_type_view(s.push(t)[0])]
            + osc_args_view(s.push(t).drop_first()));
        assert(osc_args_view(s.push(t).drop_first()) == Seq::<OscTypeView>::empty());
        assert(osc_args_view(s.push(t)) =~= osc_args_view(s).push(osc_type_view(t)));
    } else {
        assert(s.push(t)[0] == s[0]);
        assert(s.push(t).drop_first() =~= s.drop_first().push(t));
        lemma_osc_args_view_push(s.drop_first(), t);
        assert(osc_args_view(s.push(t)) =~= osc_args_view(s).push(osc_type_view(t)));
    }
}

/// The view of a message.
pub open spec fn osc_message_view(m: OSCMessage) -> OscMessageView {
    OscMessageView { addr: m.addr@, args: osc_args_view(m.args@) }
}

/// The view of a packet tree.
pub open spec fn osc_packet_view(p: OSCPacket) -> OscPacketView
    decreases p,
{
    match p {
        OSCPacket::Message(m) => OscPacketView::Message(osc_message_view(m)),
        OSCPacket::Bundle(b) => OscPacketView::Bundle(
            OscBundleView { timetag: b.timetag, content: osc_packets_view(b.content@) },
        ),
    }
}

/// The view of a sequence of packets, element by element.
pub open spec fn osc_packets_view(s: Seq<OSCPacket>) -> Seq<OscPacketView>
    decreases s,
{
    if s.len() == 0 {
        Seq::empty()
    } else {
        seq![osc_packet_view(s[0])] + osc_packets_view(s.drop_first())
    }
}

/// The element-wise reading of [`osc_packets_view`].
pub proof fn lemma_osc_packets_view(s: Seq<OSCPacket>)
    ensures
        osc_packets_view(s).len() == s.len(),
        forall|i: int| 0 <= i < s.len() ==> osc_packets_view(s)[i] == osc_packet_view(s[i]),
    decreases s,
{
    if s.len() > 0 {
        lemma_osc_packets_view(s.drop_first());
    }
}

/// Views distribute over pushing a packet.
pub proof fn lemma_osc_packets_view_push(s: Seq<OSCPacket>, p: OSCPacket)
    ensures
        osc_packets_view(s.push(p)) == osc_packets_view(s).push(osc_packet_view(p)),
    decreases s,
{
    if s.len() == 0 {
        assert(s.push(p)[0] == p);
        assert(s.push(p).drop_first() =~= Seq::<OSCPacket>::empty());
        assert(osc_packets_view(s) == Seq::<OscPacketView>::empty());
        assert(osc_packets_view(s.push(p).drop_first()) == Seq::<OscPacketView>::empty());
        assert(osc_packets_view(s.push(p)) =~= osc_packets_view(s).push(osc_packet_view(p)));
    } else {
        assert(s.push(p)[0] == s[0]);
        assert(s.push(p).drop_first() =~= s.drop_first().push(p));
        lemma_osc_packets_view_push(s.drop_first(), p);
        assert(osc_packets_view(s.push(p)) =~= osc_packets_view(s).push(osc_packet_view(p)));
    }
}

impl View for OSCType {
    type V = OscTypeView;

    open spec fn view(&self) -> OscTypeView {
        osc_type_view(*self)
    }
}

impl View for OSCMessage {
    type V = OscMessageView;

    open spec fn view(&self) -> OscMessageView {
        osc_message_view(*self)
    }
}

impl View for OSCBundle {
    type V = OscBundleView;

    open spec fn view(&self) -> OscBundleView {
        OscBundleView { timetag: self.timetag, content: osc_packets_view(self.content@) }
    }
}

impl View for OSCPacket {
    type V = OscPacketView;

    open spec fn view(&self) -> OscPacketView {
        osc_packet_view(*self)
    }
}

impl OSCType {
    /// The contained integer, if the argument is a `Int`.
    pub fn int_value(self) -> (r: Option<i32>)
        ensures
            match self {
                OSCType::Int(v) => r == Some(v),
                _ => r is None,
            },
    {
        match self {
            OSCType::Int(v) => Some(v),
            _ => None,
        }
    }

    /// The contained single-precision bit pattern, if the argument is a `Float`.
    pub fn float(self) -> (r: Option<u32>)
        ensures
            match self {
                OSCType::Float(v) => r == Some(v),
                _ => r is None,
            },
    {
        match self {
            OSCType::Float(v) => Some(v),
            _ => None,
        }
    }

    /// The contained string, if the argument is a `String`.
    pub fn string(self) -> (r: Option<String>)
        ensures
            match self {
                OSCType::String(v) => r == Some(v),
                _ => r is None,
            },
    {
        match self {
            OSCType::String(v) => Some(v),
            _ => None,
        }
    }

    /// The contained blob bytes, if the argument is a `Blob`.
    pub fn blob(self) -> (r: Option<Vec<u8>>)
        ensures
            match self {
                OSCType::Blob(v) => r == Some(v),
                _ => r is None,
            },
    {
        match self {
            OSCType::Blob(v) => Some(v),
            _ => None,
        }
    }

    /// The contained array, if the argument is a `Array`.
    pub fn array(self) -> (r: Option<OSCArray>)
        ensures
            match self {
                OSCType::Array(v) => r == Some(v),
                _ => r is None,
            },
    {
        match self {
            OSCType::Array(v) => Some(v),
            _ => None,
        }
    }

    /// The contained 64-bit integer, if the argument is a `Long`.
    pub fn long(self) -> (r: Option<i64>)
        ensures
            match self {
                OSCType::Long(v) => r == Some(v),
                _ => r is None,
            },
    {
        match self {
            OSCType::Long(v) => Some(v),
            _ => None,
        }
    }

    /// The contained double-precision bit pattern, if the argument is a `Double`.
    pub fn double(self) -> (r: Option<u64>)
        ensures
            match self {
                OSCType::Double(v) => r == Some(v),
                _ => r is None,
            },
    {
        match self {
            OSCType::Double(v) => Some(v),
            _ => None,
        }
    }

    /// The contained character, if the argument is a `Char`.
    pub fn char(self) -> (r: Option<char>)
        ensures
            match self {
                OSCType::Char(v) => r == Some(v),
                _ => r is None,
            },
    {
        match self {
            OSCType::Char(v) => Some(v),
            _ => None,
        }
    }

    /// The contained color, if the argument is a `Color`.
    pub fn color(self) -> (r: Option<OSCColor>)
        ensures
            match self {
                OSCType::Color(v) => r == Some(v),
                _ => r is None,
            },
    {
        match self {
            OSCType::Color(v) => Some(v),
            _ => None,
        }
    }

    /// The contained MIDI message, if the argument is a `Midi`.
    pub fn midi(self) -> (r: Option<OSCMidiMessage>)
        ensures
            match self {
                OSCType::Midi(v) => r == Some(v),
                _ => r is None,
            },
    {
        match self {
            OSCType::Midi(v) => Some(v),
            _ => None,
        }
    }

    /// The contained boolean, if the argument is a `Bool`.
    pub fn bool(self) -> (r: Option<bool>)
        ensures
            match self {
                OSCType::Bool(v) => r == Some(v),
                _ => r is None,
            },
    {
        match self {
            OSCType::Bool(v) => Some(v),
            _ => None,
        }
    }
}

impl OSCType {
    /// The contained time tag, if the argument is a `Time`.
    pub fn time(self) -> (r: Option<OSCTime>)
        ensures
            match self {
                OSCType::Time(t) => r == Some(t),
                _ => r is None,
            },
    {
        match self {
            OSCType::Time(time) => Some(time),
            _ => None,
        }
    }
}

impl OSCPacket {
    /// A reference to the contained message, if the packet is a message.
    pub fn message(&self) -> (r: Option<&OSCMessage>)
        ensures
            match r {
                Some(m) => *self matches OSCPacket::Message(mm) && mm == *m,
                None => *self matches OSCPacket::Bundle(_),
            },
    {
        match self {
            OSCPacket::Message(message) => Some(message),
            _ => None,
        }
    }

    /// The contained message, if the packet is a message.
    pub fn into_message(self) -> (r: Option<OSCMessage>)
        ensures
            match r {
                Some(m) => self == OSCPacket::Message(m),
                None => self matches OSCPacket::Bundle(_),
            },
    {
        match self {
            OSCPacket::Message(message) => Some(message),
            _ => None,
        }
    }
}

impl OSCMessage {
    /// Creates a message from an address and its arguments.
    pub fn new(addr: &str, args: Vec<OSCType>) -> (r: OSCMessage)
        ensures
            r@.addr == addr@,
            r@.args == osc_args_view(args@),
    {
        OSCMessage { addr: addr.to_owned(), args }
    }

    /// Whether the address begins with the given prefix, compared byte-wise
    /// on the UTF-8 encodings.
    pub fn starts_with(&self, prefix: &str) -> (r: bool)
        ensures
            r == {
                let a = vstd::utf8::encode_utf8(self@.addr);
                let p = vstd::utf8::encode_utf8(prefix@);
                p.len() <= a.len() && a.subrange(0, p.len() as int) == p
            },
    {
        let a = self.addr.as_str().as_bytes();
        let p = prefix.as_bytes();
        bytes_prefix(a, p)
    }

    /// The message as an address slice and argument slice, for matching.
    pub fn as_tuple(&self) -> (r: (&str, &[OSCType]))
        ensures
            r.0@ == self@.addr,
            r.1@ == self.args@,
    {
        (self.addr.as_str(), self.args.as_slice())
    }
}

/// Whether `p` is a byte-wise prefix of `a`.
fn bytes_prefix(a: &[u8], p: &[u8]) -> (r: bool)
    ensures
        r == (p@.len() <= a@.len() && a@.subrange(0, p@.len() as int) == p@),
{
    if p.len() > a.len() {
        return false;
    }
    let mut i: usize = 0;
    while i < p.len()
        invariant
            0 <= i <= p@.len() <= a@.len(),
            forall|j: int| 0 <= j < i ==> a@[j] == p@[j],
        decreases p@.len() - i,
    {
        if a[i] != p[i] {
            assert(a@.subrange(0, p@.len() as int) != p@) by {
                assert(a@.subrange(0, p@.len() as int)[i as int] != p@[i as int]);
            }
            return false;
        }
        i += 1;
    }
    proof {
        assert(a@.subrange(0, p@.len() as int) =~= p@);
    }
    true
}

} // verus!
