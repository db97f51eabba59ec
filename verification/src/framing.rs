//! ISO 14230-2 frame encoding and decoding.
//!
//! Frame layout: `[format] [target] [source] [length?] [payload ...] [checksum]`.
//! The format byte carries the addressing mode in bits 7..6 and the payload
//! length in bits 5..0 (0 means a separate length byte follows). The checksum
//! is the 8-bit wrapping sum of every preceding byte.

use vstd::prelude::*;
use vstd::slice::slice_subrange;
use crate::kwp::KwpError;
use crate::transport::KLineTransport;

verus! {

pub const ADDR_MODE_MASK: u8 = 0xC0;
pub const ADDR_MODE_NONE: u8 = 0x00;
pub const ADDR_MODE_PHYSICAL: u8 = 0x80;
pub const ADDR_MODE_FUNCTIONAL: u8 = 0xC0;

/// Sum of all bytes, as a mathematical integer.
pub open spec fn byte_sum(bytes: Seq<u8>) -> nat
    decreases bytes.len(),
{
    if bytes.len() == 0 {
        0
    } else {
        byte_sum(bytes.drop_last()) + bytes.last() as nat
    }
}

/// The KWP checksum: the 8-bit wrapping sum of the bytes.
pub open spec fn spec_checksum(bytes: Seq<u8>) -> u8 {
    (byte_sum(bytes) % 256) as u8
}

proof fn lemma_byte_sum_concat(a: Seq<u8>, b: Seq<u8>)
    ensures
        byte_sum(a + b) == byte_sum(a) + byte_sum(b),
    decreases b.len(),
{
    if b.len() == 0 {
        assert(a + b =~= a);
    } else {
        lemma_byte_sum_concat(a, b.drop_last());
        assert((a + b).drop_last() =~= a + b.drop_last());
    }
}

/// Law: the checksum of two byte runs joined is the 8-bit wrapping sum of
/// their checksums.
pub proof fn lemma_checksum_concat(a: Seq<u8>, b: Seq<u8>)
    ensures
        spec_checksum(a + b) == ((spec_checksum(a) as nat + spec_checksum(b) as nat) % 256) as u8,
{
    lemma_byte_sum_concat(a, b);
    let x = byte_sum(a);
    let y = byte_sum(b);
    assert((x + y) % 256 == ((x % 256) + (y % 256)) % 256) by (nonlinear_arith);
}

/// 8-bit wrapping sum over all frame bytes before the checksum position.
pub fn checksum(bytes: &[u8]) -> (c: u8)
    ensures
        c == spec_checksum(bytes@),
{
    let mut acc: u8 = 0;
    let mut i: usize = 0;
    while i < bytes.len()
        invariant
            i <= bytes@.len(),
            acc == spec_checksum(bytes@.take(i as int)),
        decreases bytes@.len() - i,
    {
        proof {
            assert(bytes@.take(i + 1).drop_last() =~= bytes@.take(i as int));
        }
        acc = ((acc as u16 + bytes[i] as u16) % 256) as u8;
        i = i + 1;
    }
    proof {
        assert(bytes@.take(bytes@.len() as int) =~= bytes@);
    }
    acc
}

/// How to build headers for a given ECU (comes from the ECU definition).
#[derive(Debug, Clone, Copy, PartialEq, Eq)]
pub struct FrameCodec {
    /// `Some((target, source))` for physical addressing, `None` for headers
    /// without address information.
    pub addressing: Option<(u8, u8)>,
    /// Force a separate length byte even for payloads that fit the format byte.
    pub separate_length_byte: bool,
}

/// Whether a payload of `len` bytes needs a separate length byte.
pub open spec fn needs_length_byte(codec: FrameCodec, len: nat) -> bool {
    codec.separate_length_byte || len > 63
}

/// The header written in front of a payload of `len` bytes.
pub open spec fn spec_header(codec: FrameCodec, len: nat) -> Seq<u8> {
    let mode: nat = if codec.addressing is Some { 0x80 } else { 0 };
    let fmt: u8 = if needs_length_byte(codec, len) { mode as u8 } else { (mode + len) as u8 };
    let addr: Seq<u8> = match codec.addressing {
        Some((t, s)) => seq![t, s],
        None => Seq::<u8>::empty(),
    };
    let len_byte: Seq<u8> = if needs_length_byte(codec, len) {
        seq![len as u8]
    } else {
        Seq::<u8>::empty()
    };
    seq![fmt] + addr + len_byte
}

/// The complete encoded frame for `payload`.
pub open spec fn spec_encode(codec: FrameCodec, payload: Seq<u8>) -> Seq<u8> {
    let body = spec_header(codec, payload.len()) + payload;
    body.push(spec_checksum(body))
}

impl FrameCodec {
    /// Marelli-style: physical addressing, length in the format byte.
    pub fn physical(target: u8, source: u8) -> (c: Self)
        ensures
            c.addressing == Some((target, source)),
            !c.separate_length_byte,
    {
        FrameCodec { addressing: Some((target, source)), separate_length_byte: false }
    }

    /// Encode a payload of 1..=255 bytes as a complete frame.
    pub fn encode(&self, payload: &[u8]) -> (out: Vec<u8>)
        requires
            1 <= payload@.len() <= 255,
        ensures
            out@ == spec_encode(*self, payload@),
    {
        let len = payload.len();
        let needs_len_byte = self.separate_length_byte || len > 63;
        let mode: u8 = if self.addressing.is_some() {
            ADDR_MODE_PHYSICAL
        } else {
            ADDR_MODE_NONE
        };
        let fmt: u8 = if needs_len_byte {
            mode
        } else {
            mode + len as u8
        };
        let mut out: Vec<u8> = Vec::new();
        out.push(fmt);
        match self.addressing {
            Some((target, source)) => {
                out.push(target);
                out.push(source);
            },
            None => {},
        }
        if needs_len_byte {
            out.push(len as u8);
        }
        let ghost header = out@;
        assert(header =~= spec_header(*self, len as nat));
        let mut i: usize = 0;
        while i < len
            invariant
                i <= len,
                len == payload@.len(),
                out@ =~= header + payload@.take(i as int),
            decreases len - i,
        {
            out.push(payload[i]);
            i = i + 1;
            assert(out@ =~= header + payload@.take(i as int));
        }
        assert(payload@.take(len as int) =~= payload@);
        let c = checksum(out.as_slice());
        out.push(c);
        out
    }
}

/// A decoded frame as it appeared on the wire.
#[derive(Debug, Clone, PartialEq, Eq)]
pub struct Frame {
    pub target: Option<u8>,
    pub source: Option<u8>,
    pub payload: Vec<u8>,
    /// Complete raw bytes including header and checksum (for trace logs).
    pub raw: Vec<u8>,
}

/// What a byte buffer holds at its front, mathematically.
pub enum SpecParse {
    Incomplete,
    Invalid,
    Complete { target: Option<u8>, source: Option<u8>, payload: Seq<u8>, consumed: nat },
}

/// A format byte with addressing information (physical or functional).
pub open spec fn fmt_has_addr(fmt: u8) -> bool {
    fmt >= 0x80
}

pub open spec fn fmt_header_len(fmt: u8) -> int {
    if fmt_has_addr(fmt) { 3 } else { 1 }
}

/// The frame at the front of `buf`: incomplete, invalid, or complete.
pub open spec fn spec_parse(buf: Seq<u8>) -> SpecParse {
    if buf.len() == 0 {
        SpecParse::Incomplete
    } else {
        let fmt = buf[0];
        let header_len = fmt_header_len(fmt);
        let len_bits = fmt % 64;
        if len_bits == 0 && buf.len() <= header_len {
            SpecParse::Incomplete
        } else {
            let payload_len: int = if len_bits == 0 { buf[header_len] as int } else { len_bits as int };
            let len_bytes: int = if len_bits == 0 { 1 } else { 0 };
            if payload_len == 0 {
                SpecParse::Invalid
            } else {
                let start = header_len + len_bytes;
                let total = start + payload_len + 1;
                if buf.len() < total {
                    SpecParse::Incomplete
                } else if spec_checksum(buf.subrange(0, total - 1)) != buf[total - 1] {
                    SpecParse::Invalid
                } else {
                    SpecParse::Complete {
                        target: if fmt_has_addr(fmt) { Some(buf[1]) } else { None },
                        source: if fmt_has_addr(fmt) { Some(buf[2]) } else { None },
                        payload: buf.subrange(start, start + payload_len),
                        consumed: total as nat,
                    }
                }
            }
        }
    }
}

/// A complete frame parses the same with more bytes behind it.
pub proof fn lemma_parse_prefix(a: Seq<u8>, b: Seq<u8>)
    requires
        spec_parse(a) matches SpecParse::Complete { consumed, .. } && consumed == a.len(),
    ensures
        spec_parse(a + b) == spec_parse(a),
{
    let ab = a + b;
    let fmt = a[0];
    let header_len = fmt_header_len(fmt);
    assert(ab[0] == fmt);
    if fmt % 64 == 0 {
        assert(ab[header_len] == a[header_len]);
    }
    let payload_len: int = if fmt % 64 == 0 { a[header_len] as int } else { (fmt % 64) as int };
    let len_bytes: int = if fmt % 64 == 0 { 1 } else { 0 };
    let start = header_len + len_bytes;
    let total = start + payload_len + 1;
    assert(ab.subrange(0, total - 1) =~= a.subrange(0, total - 1));
    assert(ab[total - 1] == a[total - 1]);
    assert(ab.subrange(start, start + payload_len) =~= a.subrange(start, start + payload_len));
    if fmt_has_addr(fmt) {
        assert(ab[1] == a[1]);
        assert(ab[2] == a[2]);
    }
}

/// Result of attempting to parse a frame from an accumulating byte buffer.
#[derive(Debug, Clone, PartialEq, Eq)]
pub enum ParseStatus {
    /// Not enough bytes yet.
    Incomplete,
    /// A complete, checksum-valid frame; `consumed` bytes should be drained.
    Complete { frame: Frame, consumed: usize },
    /// The buffer cannot be a valid frame; the caller should resynchronize.
    Invalid(String),
}

/// `status` is the executable form of `spec`, for the buffer `buf`.
pub open spec fn status_matches(status: ParseStatus, buf: Seq<u8>) -> bool {
    match spec_parse(buf) {
        SpecParse::Incomplete => status is Incomplete,
        SpecParse::Invalid => status is Invalid,
        SpecParse::Complete { target, source, payload, consumed } => match status {
            ParseStatus::Complete { frame, consumed: c } => {
                &&& frame.target == target
                &&& frame.source == source
                &&& frame.payload@ == payload
                &&& frame.raw@ == buf.subrange(0, consumed as int)
                &&& c == consumed
            },
            _ => false,
        },
    }
}

proof fn lemma_fmt_bits(fmt: u8)
    ensures
        (fmt & 0xC0 == 0x80 || fmt & 0xC0 == 0xC0) <==> fmt >= 0x80,
        fmt & 0x3F == fmt % 64,
{
    assert((fmt & 0xC0 == 0x80 || fmt & 0xC0 == 0xC0) <==> fmt >= 0x80) by (bit_vector);
    assert(fmt & 0x3F == fmt % 64) by (bit_vector);
}

fn copy_range(buf: &[u8], start: usize, end: usize) -> (out: Vec<u8>)
    requires
        start <= end <= buf@.len(),
    ensures
        out@ == buf@.subrange(start as int, end as int),
{
    let mut out: Vec<u8> = Vec::new();
    let mut i = start;
    while i < end
        invariant
            start <= i <= end,
            end <= buf@.len(),
            out@ =~= buf@.subrange(start as int, i as int),
        decreases end - i,
    {
        out.push(buf[i]);
        i = i + 1;
    }
    out
}

/// Try to parse one frame from the front of `buf`.
pub fn parse_buffer(buf: &[u8]) -> (status: ParseStatus)
    ensures
        status_matches(status, buf@),
{
    if buf.len() == 0 {
        return ParseStatus::Incomplete;
    }
    let fmt = buf[0];
    proof {
        lemma_fmt_bits(fmt);
    }
    let mode = fmt & ADDR_MODE_MASK;
    let has_addr = mode == ADDR_MODE_PHYSICAL || mode == ADDR_MODE_FUNCTIONAL;
    let header_len: usize = if has_addr { 3 } else { 1 };
    let len_bits = (fmt & 0x3F) as usize;
    let payload_len: usize;
    let len_bytes: usize;
    if len_bits == 0 {
        if buf.len() <= header_len {
            return ParseStatus::Incomplete;
        }
        payload_len = buf[header_len] as usize;
        len_bytes = 1;
    } else {
        payload_len = len_bits;
        len_bytes = 0;
    }
    if payload_len == 0 {
        return ParseStatus::Invalid(String::from_str("zero-length payload"));
    }
    let total = header_len + len_bytes + payload_len + 1;
    if buf.len() < total {
        return ParseStatus::Incomplete;
    }
    let computed = checksum(slice_subrange(buf, 0, total - 1));
    let received = buf[total - 1];
    if computed != received {
        return ParseStatus::Invalid(String::from_str("checksum mismatch"));
    }
    let (target, source) = if has_addr {
        (Some(buf[1]), Some(buf[2]))
    } else {
        (None, None)
    };
    let start = header_len + len_bytes;
    let payload = copy_range(buf, start, start + payload_len);
    let raw = copy_range(buf, 0, total);
    ParseStatus::Complete { frame: Frame { target, source, payload, raw }, consumed: total }
}

/// `new` extends `old`; `consumed(old, new)` is what was appended.
pub open spec fn extends<A>(old: Seq<A>, new: Seq<A>) -> bool {
    old.len() <= new.len() && new.subrange(0, old.len() as int) == old
}

pub open spec fn appended<A>(old: Seq<A>, new: Seq<A>) -> Seq<A> {
    new.subrange(old.len() as int, new.len() as int)
}

/// The buffer starts a frame whose length byte declares an empty payload.
pub open spec fn declares_empty(buf: Seq<u8>) -> bool {
    &&& buf.len() > 0
    &&& buf[0] % 64 == 0
    &&& buf.len() > fmt_header_len(buf[0])
    &&& buf[fmt_header_len(buf[0])] == 0
}

/// What `read_frame` returning `r` says about the bytes it consumed: a
/// whole frame, a proper prefix of one (transport failure), a frame whose
/// checksum does not match, or a header declaring an empty payload.
pub open spec fn read_frame_outcome(r: Result<Frame, KwpError>, consumed: Seq<u8>) -> bool {
    match r {
        Ok(f) => {
            &&& f.raw@ == consumed
            &&& spec_parse(consumed) == (SpecParse::Complete {
                target: f.target,
                source: f.source,
                payload: f.payload@,
                consumed: consumed.len(),
            })
        },
        Err(KwpError::Transport(_)) => spec_parse(consumed) is Incomplete,
        Err(KwpError::BadChecksum { computed, received }) => {
            &&& spec_parse(consumed) is Invalid
            &&& !declares_empty(consumed)
            &&& consumed.len() >= 1
            &&& computed == spec_checksum(consumed.drop_last())
            &&& received == consumed.last()
        },
        Err(KwpError::MalformedFrame(_)) => spec_parse(consumed) is Invalid && declares_empty(consumed),
        _ => false,
    }
}

proof fn lemma_extends<A>(base: Seq<A>, raw: Seq<A>)
    ensures
        extends(base, base + raw),
        appended(base, base + raw) == raw,
{
    assert((base + raw).subrange(0, base.len() as int) =~= base);
    assert(appended(base, base + raw) =~= raw);
}

fn read_into<T: KLineTransport>(transport: &mut T, raw: &mut Vec<u8>, timeout_ms: u64) -> (r: Result<u8, KwpError>)
    ensures
        r matches Ok(b) ==> final(raw)@ == old(raw)@.push(b) && final(transport).received()
            == old(transport).received().push(b),
        r matches Err(e) ==> e is Transport && final(raw)@ == old(raw)@ && final(transport).received()
            == old(transport).received(),
        r is Ok ==> final(transport).errors() == old(transport).errors(),
        r matches Err(KwpError::Transport(e)) ==> final(transport).errors() == old(transport).errors().push(e),
        final(transport).sent() == old(transport).sent(),
{
    match transport.read_byte(timeout_ms) {
        Ok(b) => {
            raw.push(b);
            Ok(b)
        },
        Err(e) => Err(KwpError::Transport(e)),
    }
}

/// Read one complete frame from the transport.
///
/// `first_byte_timeout_ms` bounds the wait for the format byte (KWP P2),
/// `inter_byte_timeout_ms` the gaps inside the frame (KWP P1). The bytes read
/// are exactly one frame, a proper prefix of one (when the transport failed),
/// or a buffer that cannot start a valid frame.
pub fn read_frame<T: KLineTransport>(
    transport: &mut T,
    first_byte_timeout_ms: u64,
    inter_byte_timeout_ms: u64,
) -> (r: Result<Frame, KwpError>)
    ensures
        final(transport).sent() == old(transport).sent(),
        extends(old(transport).received(), final(transport).received()),
        read_frame_outcome(r, appended(old(transport).received(), final(transport).received())),
        r matches Err(KwpError::Transport(e)) ==> final(transport).errors() == old(transport).errors().push(e),
        !(r matches Err(KwpError::Transport(_))) ==> final(transport).errors() == old(transport).errors(),
{
    let ghost base = transport.received();
    let mut raw: Vec<u8> = Vec::new();
    let fmt = match read_into(transport, &mut raw, first_byte_timeout_ms) {
        Ok(b) => b,
        Err(e) => {
            proof { assert(transport.received() =~= base + raw@); lemma_extends(base, raw@); }
            return Err(e);
        },
    };
    proof {
        lemma_fmt_bits(fmt);
    }
    let mode = fmt & ADDR_MODE_MASK;
    let has_addr = mode == ADDR_MODE_PHYSICAL || mode == ADDR_MODE_FUNCTIONAL;
    let mut target: Option<u8> = None;
    let mut source: Option<u8> = None;
    if has_addr {
        let t = match read_into(transport, &mut raw, inter_byte_timeout_ms) {
            Ok(b) => b,
            Err(e) => {
                proof { assert(transport.received() =~= base + raw@); lemma_extends(base, raw@); }
                return Err(e);
            },
        };
        let s = match read_into(transport, &mut raw, inter_byte_timeout_ms) {
            Ok(b) => b,
            Err(e) => {
                proof { assert(transport.received() =~= base + raw@); lemma_extends(base, raw@); }
                return Err(e);
            },
        };
        target = Some(t);
        source = Some(s);
    }
    let header_len: usize = if has_addr { 3 } else { 1 };
    assert(raw@.len() == header_len);
    let len_bits = (fmt & 0x3F) as usize;
    let len: usize;
    if len_bits == 0 {
        let n = match read_into(transport, &mut raw, inter_byte_timeout_ms) {
            Ok(b) => b,
            Err(e) => {
                proof { assert(transport.received() =~= base + raw@); lemma_extends(base, raw@); }
                return Err(e);
            },
        };
        len = n as usize;
    } else {
        len = len_bits;
    }
    let start = raw.len();
    if len == 0 {
        proof { assert(transport.received() =~= base + raw@); lemma_extends(base, raw@); }
        return Err(KwpError::MalformedFrame(String::from_str("zero-length payload")));
    }
    let ghost header = raw@;
    let mut payload: Vec<u8> = Vec::new();
    let mut i: usize = 0;
    while i < len
        invariant
            i <= len,
            len <= 255,
            start == header.len(),
            header.len() == header_len + (if len_bits == 0 { 1int } else { 0int }),
            header[0] == fmt,
            len_bits == fmt % 64,
            header_len == fmt_header_len(fmt),
            len_bits == 0 ==> header[header_len as int] == len,
            len_bits != 0 ==> len == len_bits,
            has_addr == fmt_has_addr(fmt),
            has_addr ==> target == Some(header[1]) && source == Some(header[2]),
            !has_addr ==> target is None && source is None,
            raw@ == header + payload@,
            payload@.len() == i,
            transport.received() == base + raw@,
            base == old(transport).received(),
            transport.sent() == old(transport).sent(),
            transport.errors() == old(transport).errors(),
        decreases len - i,
    {
        let b = match read_into(transport, &mut raw, inter_byte_timeout_ms) {
            Ok(b) => b,
            Err(e) => {
                proof { assert(transport.received() =~= base + raw@); lemma_extends(base, raw@); }
                assert(raw@[0] == fmt);
                assert(len_bits == 0 ==> raw@[header_len as int] == len);
                assert(raw@.len() < start + len + 1);
                assert(spec_parse(raw@) is Incomplete);
                return Err(e);
            },
        };
        payload.push(b);
        i = i + 1;
        assert(raw@ =~= header + payload@);
    }
    let computed = checksum(raw.as_slice());
    let received = match read_into(transport, &mut raw, inter_byte_timeout_ms) {
        Ok(b) => b,
        Err(e) => {
            proof { assert(transport.received() =~= base + raw@); lemma_extends(base, raw@); }
            assert(raw@[0] == fmt);
            assert(len_bits == 0 ==> raw@[header_len as int] == len);
            return Err(e);
        },
    };
    let ghost consumed = raw@;
    proof { assert(transport.received() =~= base + raw@); lemma_extends(base, raw@); }
    assert(consumed[0] == fmt);
    assert(len_bits == 0 ==> consumed[header_len as int] == len);
    assert(consumed.subrange(0, consumed.len() - 1) =~= header + payload@);
    assert(consumed.drop_last() =~= header + payload@);
    if computed != received {
        return Err(KwpError::BadChecksum { computed, received });
    }
    assert(consumed.subrange(start as int, start + len) =~= payload@);
    proof {
        if has_addr {
            assert(consumed[1] == header[1]);
            assert(consumed[2] == header[2]);
        }
    }
    Ok(Frame { target, source, payload, raw })
}

/// Law: a frame the codec encodes parses back, from the front of any buffer
/// that starts with it, to the same addressing, the same payload, and exactly
/// the encoded length.
pub proof fn lemma_encode_parse_roundtrip(codec: FrameCodec, payload: Seq<u8>, rest: Seq<u8>)
    requires
        1 <= payload.len() <= 255,
    ensures
        spec_parse(spec_encode(codec, payload) + rest) == (SpecParse::Complete {
            target: match codec.addressing { Some((t, s)) => Some(t), None => None },
            source: match codec.addressing { Some((t, s)) => Some(s), None => None },
            payload: payload,
            consumed: spec_encode(codec, payload).len(),
        }),
{
    let enc = spec_encode(codec, payload);
    let buf = enc + rest;
    let len = payload.len();
    let header = spec_header(codec, len);
    let body = header + payload;
    let needs = needs_length_byte(codec, len);
    let mode: nat = if codec.addressing is Some { 0x80 } else { 0 };
    let fmt = buf[0];
    assert(buf[0] == header[0]);
    let hl: int = if codec.addressing is Some { 3 } else { 1 };
    assert(header.len() == hl + (if needs { 1int } else { 0int }));
    if needs {
        assert(fmt == mode as u8);
        assert(fmt % 64 == 0);
        assert(fmt_header_len(fmt) == hl);
        assert(buf[hl] == header[hl]);
        assert(buf[hl] == len as u8);
    } else {
        assert(len <= 63);
        assert(fmt == (mode + len) as u8);
        assert(fmt % 64 == len);
        assert(fmt_header_len(fmt) == hl);
    }
    let start = header.len() as int;
    let total = start + len + 1;
    assert(enc.len() == total);
    assert(buf.subrange(0, total - 1) =~= body);
    assert(buf[total - 1] == spec_checksum(body));
    assert(buf.subrange(start, start + len) =~= payload);
    match codec.addressing {
        Some((t, s)) => {
            assert(buf[1] == t);
            assert(buf[2] == s);
        },
        None => {},
    }
}

} // verus!
