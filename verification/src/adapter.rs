//! CAN over serial-line adapters: SLCAN (Lawicel) dongles and ELM327/STN
//! interfaces. Both speak text lines over a USB virtual COM port; the port
//! itself is whatever the operating system offers, behind `AdapterPort`.

use crate::can::{spec_can_frame, CanError, CanFrame, CanFrameView, CanTransport};
use crate::channel::{elapsed_ms, instant_now};
use crate::elm327::{decode_response_hex, elm_decode, encode_at_command, encode_frame_hex, response_line_splits, HexLineDecode};
use crate::session::{decode_utf8_lossy, utf8_lossy};
use crate::slcan::{decode_frame, encode_frame, frame_line_splits, slcan_decode, slcan_encode, LineDecode};
use crate::text::{
    all_ascii, char_width, decimal, elm_clean, hex_concat, hex_min, is_ascii_char, pair_walk,
    push_char, push_decimal, push_hex_min, range_all_ascii, spec_trim, str_chars, trim_chars,
};
use vstd::prelude::*;
use vstd::utf8::encode_utf8;

verus! {

/// The raw operations of an opened adapter port. Nothing is promised of
/// what the port does.
pub trait AdapterPort {
    fn write_all(&mut self, bytes: &[u8]) -> Result<(), CanError>;

    /// One read with the port's own short timeout: the bytes that arrived,
    /// empty when none did.
    fn read_chunk(&mut self) -> Result<Vec<u8>, CanError>;

    /// Let `duration_ms` pass.
    fn sleep_ms(&mut self, duration_ms: u64);
}

/// A line ends at a carriage return; an ELM327 also ends one at its `>`
/// prompt.
pub open spec fn is_line_end(b: u8, prompt_ends_line: bool) -> bool {
    b == 0x0D || (prompt_ends_line && b == 0x3E)
}

/// The index of the first line end in `s` at or after `i`.
pub open spec fn line_end_from(s: Seq<u8>, i: int, prompt_ends_line: bool) -> Option<int>
    decreases s.len() - i,
{
    if i < 0 || i >= s.len() {
        None
    } else if is_line_end(s[i], prompt_ends_line) {
        Some(i)
    } else {
        line_end_from(s, i + 1, prompt_ends_line)
    }
}

/// The text of a received line: its bytes up to and including the line
/// end, decoded with replacement characters, trimmed.
pub open spec fn line_text(bytes: Seq<u8>) -> Seq<char> {
    spec_trim(utf8_lossy(bytes))
}

fn chars_to_string(v: &Vec<char>) -> (s: String)
    ensures
        s@ == v@,
{
    let mut s = String::new();
    let mut i: usize = 0;
    while i < v.len()
        invariant
            i <= v@.len(),
            s@ =~= v@.take(i as int),
        decreases v@.len() - i,
    {
        push_char(&mut s, v[i]);
        i = i + 1;
    }
    assert(v@.take(v@.len() as int) =~= v@);
    s
}

fn copy_range(src: &Vec<u8>, start: usize, end: usize) -> (out: Vec<u8>)
    requires
        start <= end <= src@.len(),
    ensures
        out@ == src@.subrange(start as int, end as int),
{
    let mut out: Vec<u8> = Vec::new();
    let mut i: usize = start;
    while i < end
        invariant
            start <= i <= end,
            end <= src@.len(),
            out@ =~= src@.subrange(start as int, i as int),
        decreases end - i,
    {
        out.push(src[i]);
        i = i + 1;
    }
    out
}

/// Take the first complete line out of `buf`.
fn take_line(buf: &mut Vec<u8>, prompt_ends_line: bool) -> (r: Option<String>)
    ensures
        match line_end_from(old(buf)@, 0, prompt_ends_line) {
            Some(p) => {
                &&& r matches Some(s) && s@ == line_text(old(buf)@.subrange(0, p + 1))
                &&& final(buf)@ == old(buf)@.subrange(p + 1, old(buf)@.len() as int)
            },
            None => r is None && final(buf)@ == old(buf)@,
        },
{
    let mut i: usize = 0;
    while i < buf.len()
        invariant
            i <= buf@.len(),
            buf@ == old(buf)@,
            line_end_from(buf@, 0, prompt_ends_line) == line_end_from(buf@, i as int, prompt_ends_line),
        decreases buf@.len() - i,
    {
        let b = buf[i];
        if b == 0x0D || (prompt_ends_line && b == 0x3E) {
            let raw = copy_range(buf, 0, i + 1);
            let rest = copy_range(buf, i + 1, buf.len());
            *buf = rest;
            let text = decode_utf8_lossy(raw.as_slice());
            let chars = str_chars(text.as_str());
            let trimmed = trim_chars(&chars);
            return Some(chars_to_string(&trimmed));
        }
        i = i + 1;
    }
    None
}

/// Append `chunk` to `buf`.
fn append_all(buf: &mut Vec<u8>, chunk: &Vec<u8>)
    ensures
        final(buf)@ == old(buf)@ + chunk@,
{
    let mut i: usize = 0;
    while i < chunk.len()
        invariant
            i <= chunk@.len(),
            buf@ =~= old(buf)@ + chunk@.take(i as int),
        decreases chunk@.len() - i,
    {
        buf.push(chunk[i]);
        i = i + 1;
    }
    assert(chunk@.take(chunk@.len() as int) =~= chunk@);
}

/// Read one line from the port, waiting at most `timeout_ms` for it to
/// complete. Lines already buffered are returned first.
fn read_line<P: AdapterPort>(port: &mut P, buf: &mut Vec<u8>, timeout_ms: u64, prompt_ends_line: bool) -> (r:
    Result<String, CanError>)
    ensures
        line_end_from(old(buf)@, 0, prompt_ends_line) matches Some(p) ==> {
            &&& r matches Ok(s) && s@ == line_text(old(buf)@.subrange(0, p + 1))
            &&& final(buf)@ == old(buf)@.subrange(p + 1, old(buf)@.len() as int)
        },
{
    let start = instant_now();
    let mut budget: u64 = u64::MAX;
    while budget > 0
        invariant
            budget < u64::MAX ==> line_end_from(old(buf)@, 0, prompt_ends_line) is None,
            budget == u64::MAX ==> buf@ == old(buf)@,
        decreases budget,
    {
        match take_line(buf, prompt_ends_line) {
            Some(line) => {
                return Ok(line);
            },
            None => {},
        }
        if elapsed_ms(&start) >= timeout_ms {
            return Err(CanError::Timeout);
        }
        let chunk = match port.read_chunk() {
            Ok(c) => c,
            Err(e) => {
                return Err(e);
            },
        };
        append_all(buf, &chunk);
        budget = budget - 1;
    }
    Err(CanError::Timeout)
}

/// The bytes of a text line as it goes on the wire.
pub open spec fn line_bytes(line: Seq<char>) -> Seq<u8> {
    encode_utf8(line)
}

/// Write `line` to the port; on success `written` records its bytes.
fn write_line<P: AdapterPort>(port: &mut P, written: &mut Ghost<Seq<Seq<u8>>>, line: &str) -> (r: Result<(), CanError>)
    ensures
        r is Ok ==> final(written)@ == old(written)@.push(line_bytes(line@)),
        r is Err ==> final(written)@ == old(written)@,
{
    let bytes = line.as_bytes();
    match port.write_all(bytes) {
        Ok(()) => {
            proof {
                written@ = written@.push(bytes@);
            }
            Ok(())
        },
        Err(e) => Err(e),
    }
}

/// The time left of `timeout_ms` after `spent_ms`, if any.
fn remaining_ms(timeout_ms: u64, spent_ms: u64) -> (r: Option<u64>)
    ensures
        spent_ms <= timeout_ms ==> r == Some((timeout_ms - spent_ms) as u64),
        spent_ms > timeout_ms ==> r is None,
{
    if spent_ms <= timeout_ms {
        Some(timeout_ms - spent_ms)
    } else {
        None
    }
}

/// SLCAN over a USB virtual COM port.
pub struct SlcanTransport<P: AdapterPort> {
    port: P,
    read_buf: Vec<u8>,
    written: Ghost<Seq<Seq<u8>>>,
    sent_log: Ghost<Seq<CanFrameView>>,
    recv_log: Ghost<Seq<CanFrameView>>,
    err_log: Ghost<Seq<CanError>>,
}

/// The Lawicel command that sets the bit rate: `S` and the rate index.
pub open spec fn slcan_bitrate_line(bitrate_code: u8) -> Seq<char> {
    seq!['S'] + decimal(bitrate_code as nat) + seq!['\r']
}

impl<P: AdapterPort> SlcanTransport<P> {
    /// Give up with `e`, noting it among the errors.
    fn fail<A>(&mut self, e: CanError) -> (r: Result<A, CanError>)
        ensures
            r == Err::<A, CanError>(e),
            final(self).err_log@ == old(self).err_log@.push(e),
            final(self).sent_log == old(self).sent_log,
            final(self).recv_log == old(self).recv_log,
            final(self).written == old(self).written,
            final(self).read_buf == old(self).read_buf,
            final(self).port == old(self).port,
    {
        self.err_log = Ghost(self.err_log@.push(e));
        Err(e)
    }

    /// Every line written to the adapter's port, oldest first.
    pub closed spec fn spec_written(&self) -> Seq<Seq<u8>> {
        self.written@
    }

    /// Bytes read from the port that are not yet part of a returned line.
    pub closed spec fn spec_read_buf(&self) -> Seq<u8> {
        self.read_buf@
    }

    /// Bring up an SLCAN adapter on an opened port: close any open channel
    /// (a failure there is fine), set the bit rate, open the channel.
    /// `bitrate_code` is a Lawicel `S`-command index (e.g. `6` = 500 kbit/s,
    /// the common speed on OBD-II-style diagnostic connectors).
    pub fn start(port: P, bitrate_code: u8) -> (r: Result<Self, CanError>)
        ensures
            r matches Ok(t) ==> {
                &&& t.sent_frames().len() == 0
                &&& t.received_frames().len() == 0
                &&& t.spec_written() == seq![line_bytes("C\r"@), line_bytes(slcan_bitrate_line(bitrate_code)), line_bytes("O\r"@)]
                    || t.spec_written() == seq![line_bytes(slcan_bitrate_line(bitrate_code)), line_bytes("O\r"@)]
            },
    {
        let mut port = port;
        let mut written: Ghost<Seq<Seq<u8>>> = Ghost(Seq::empty());
        // Close, in case a session is already open; failure is fine.
        let _ = write_line(&mut port, &mut written, "C\r");
        port.sleep_ms(20);
        let mut cmd = String::from_str("S");
        push_decimal(&mut cmd, bitrate_code as u64);
        push_char(&mut cmd, '\r');
        proof {
            reveal_strlit("S");
        }
        assert(cmd@ =~= slcan_bitrate_line(bitrate_code));
        match write_line(&mut port, &mut written, cmd.as_str()) {
            Ok(()) => {},
            Err(e) => {
                return Err(e);
            },
        }
        match write_line(&mut port, &mut written, "O\r") {
            Ok(()) => {},
            Err(e) => {
                return Err(e);
            },
        }
        Ok(SlcanTransport {
            port,
            read_buf: Vec::new(),
            written,
            sent_log: Ghost(Seq::empty()),
            recv_log: Ghost(Seq::empty()),
            err_log: Ghost(Seq::empty()),
        })
    }
}

impl<P: AdapterPort> CanTransport for SlcanTransport<P> {
    closed spec fn sent_frames(&self) -> Seq<CanFrameView> {
        self.sent_log@
    }

    closed spec fn received_frames(&self) -> Seq<CanFrameView> {
        self.recv_log@
    }

    closed spec fn errors(&self) -> Seq<CanError> {
        self.err_log@
    }

    /// The frame as an SLCAN line.
    fn send(&mut self, frame: &CanFrame) -> (r: Result<(), CanError>)
        ensures
            r is Ok ==> final(self).spec_written() == old(self).spec_written().push(
                line_bytes(slcan_encode(frame@)),
            ),
            r is Err ==> final(self).spec_written() == old(self).spec_written(),
    {
        let line = encode_frame(frame);
        match write_line(&mut self.port, &mut self.written, line.as_str()) {
            Ok(()) => {
                self.sent_log = Ghost(self.sent_log@.push(frame@));
                Ok(())
            },
            Err(e) => self.fail(e),
        }
    }

    /// The next frame line; acknowledgements, errors and other lines are
    /// skipped.
    fn recv(&mut self, timeout_ms: u64) -> (r: Result<CanFrame, CanError>)
        ensures
            ({
                let buf = old(self).spec_read_buf();
                line_end_from(buf, 0, false) matches Some(p) ==> (slcan_decode(line_text(buf.subrange(0, p + 1)))
                    matches LineDecode::Frame(fv) ==> {
                    ||| r matches Ok(f) && f@ == fv && final(self).spec_read_buf() == buf.subrange(
                        p + 1,
                        buf.len() as int,
                    ) && final(self).received_frames() == old(self).received_frames().push(f@)
                    ||| r == Err::<CanFrame, CanError>(CanError::Timeout) && final(self).spec_read_buf() == buf
                })
            }),
    {
        let start = instant_now();
        let mut budget: u64 = u64::MAX;
        while budget > 0
            invariant
                self.sent_log == old(self).sent_log,
                self.err_log == old(self).err_log,
                self.recv_log == old(self).recv_log,
                budget == u64::MAX ==> self.read_buf == old(self).read_buf,
                budget < u64::MAX ==> !(line_end_from(old(self).read_buf@, 0, false) matches Some(p) && slcan_decode(
                    line_text(old(self).read_buf@.subrange(0, p + 1)),
                ) is Frame),
            decreases budget,
        {
            let remaining = match remaining_ms(timeout_ms, elapsed_ms(&start)) {
                Some(ms) => ms,
                None => {
                    return self.fail(CanError::Timeout);
                },
            };
            let line = match read_line(&mut self.port, &mut self.read_buf, remaining, false) {
                Ok(l) => l,
                Err(e) => {
                    return self.fail(e);
                },
            };
            // A line that would slice through a multi-byte character is no
            // frame line.
            if frame_line_splits(line.as_str()) {
                budget = budget - 1;
                continue;
            }
            match decode_frame(line.as_str()) {
                Some(frame) => {
                    self.recv_log = Ghost(self.recv_log@.push(frame@));
                    return Ok(frame);
                },
                None => {},
            }
            budget = budget - 1;
        }
        self.fail(CanError::Timeout)
    }
}

proof fn lemma_clean_keeps_ascii(s: Seq<char>)
    requires
        all_ascii(s),
    ensures
        all_ascii(elm_clean(s)),
    decreases s.len(),
{
    if s.len() > 0 {
        assert(all_ascii(s.drop_last())) by {
            assert forall|i: int| 0 <= i < s.drop_last().len() implies is_ascii_char(
                #[trigger] s.drop_last()[i],
            ) by {
                assert(s.drop_last()[i] == s[i]);
            }
        }
        lemma_clean_keeps_ascii(s.drop_last());
        let c = elm_clean(s.drop_last());
        assert(is_ascii_char(s[s.len() - 1]));
        assert forall|i: int| 0 <= i < c.push(s.last()).len() implies is_ascii_char(
            #[trigger] c.push(s.last())[i],
        ) by {
            if i < c.len() {
                assert(c.push(s.last())[i] == c[i]);
            }
        }
    }
}

proof fn lemma_ascii_walk_never_splits(s: Seq<char>, i: nat, n: nat)
    requires
        all_ascii(s),
    ensures
        !(pair_walk(s, i, n) is Split),
    decreases n - i,
{
    if i < n && 2 * i < s.len() {
        assert(is_ascii_char(s[(2 * i) as int]));
        assert(char_width(s[(2 * i) as int]) == 1);
        if 2 * i + 1 < s.len() {
            assert(is_ascii_char(s[(2 * i + 1) as int]));
            assert(char_width(s[(2 * i + 1) as int]) == 1);
            lemma_ascii_walk_never_splits(s, i + 1, n);
        }
    }
}

/// The ELM327 bring-up commands: reset, echo off, headers off, ISO 15765-4
/// CAN 11-bit 500 kbit/s, our transmit header, and a filter for responses.
pub open spec fn elm_bring_up(tx_id: u32, rx_id: u32) -> Seq<Seq<char>> {
    seq![
        "ATZ"@,
        "ATE0"@,
        "ATH0"@,
        "ATSP6"@,
        "ATSH"@ + hex_min(tx_id as nat, 3),
        "ATCRA"@ + hex_min(rx_id as nat, 3),
    ]
}

/// ELM327/STN over a USB virtual COM port, addressing a single fixed
/// tx/rx CAN id pair (headers configured once at start).
pub struct Elm327Transport<P: AdapterPort> {
    port: P,
    rx_id: u32,
    read_buf: Vec<u8>,
    written: Ghost<Seq<Seq<u8>>>,
    sent_log: Ghost<Seq<CanFrameView>>,
    recv_log: Ghost<Seq<CanFrameView>>,
    err_log: Ghost<Seq<CanError>>,
}

impl<P: AdapterPort> Elm327Transport<P> {
    /// Give up with `e`, noting it among the errors.
    fn fail<A>(&mut self, e: CanError) -> (r: Result<A, CanError>)
        ensures
            r == Err::<A, CanError>(e),
            final(self).err_log@ == old(self).err_log@.push(e),
            final(self).sent_log == old(self).sent_log,
            final(self).recv_log == old(self).recv_log,
            final(self).written == old(self).written,
            final(self).read_buf == old(self).read_buf,
            final(self).port == old(self).port,
            final(self).rx_id == old(self).rx_id,
    {
        self.err_log = Ghost(self.err_log@.push(e));
        Err(e)
    }

    pub closed spec fn spec_rx_id(&self) -> u32 {
        self.rx_id
    }

    /// Bytes read from the port that are not yet part of a returned line.
    pub closed spec fn spec_read_buf(&self) -> Seq<u8> {
        self.read_buf@
    }

    /// Every line written to the adapter's port, oldest first.
    pub closed spec fn spec_written(&self) -> Seq<Seq<u8>> {
        self.written@
    }

    /// Bring up an ELM327 on an opened port: reset, echo off, headers off,
    /// ISO 15765-4 CAN 11-bit 500 kbit/s, our transmit header, and a filter
    /// for the responses.
    pub fn start(port: P, tx_id: u32, rx_id: u32) -> (r: Result<Self, CanError>)
        ensures
            r matches Ok(t) ==> {
                &&& t.spec_rx_id() == rx_id
                &&& t.sent_frames().len() == 0
                &&& t.received_frames().len() == 0
                &&& t.spec_written() == elm_bring_up(tx_id, rx_id).map_values(
                    |c: Seq<char>| line_bytes(c.push('\r')),
                )
            },
    {
        let mut port = port;
        let mut set_header = String::from_str("ATSH");
        push_hex_min(&mut set_header, tx_id as u64, 3);
        let mut filter = String::from_str("ATCRA");
        push_hex_min(&mut filter, rx_id as u64, 3);
        let commands: Vec<String> = vec![
            String::from_str("ATZ"),
            String::from_str("ATE0"),
            String::from_str("ATH0"),
            String::from_str("ATSP6"),
            set_header,
            filter,
        ];
        let ghost cmds = elm_bring_up(tx_id, rx_id);
        assert(commands@.map_values(|c: String| c@) =~= cmds);
        let mut written: Ghost<Seq<Seq<u8>>> = Ghost(Seq::empty());
        let mut i: usize = 0;
        while i < commands.len()
            invariant
                i <= commands@.len(),
                commands@.map_values(|c: String| c@) == cmds,
                written@ =~= cmds.take(i as int).map_values(|c: Seq<char>| line_bytes(c.push('\r'))),
            decreases commands@.len() - i,
        {
            let line = encode_at_command(commands[i].as_str());
            proof {
                assert(commands@.map_values(|c: String| c@)[i as int] == commands@[i as int]@);
            }
            match write_line(&mut port, &mut written, line.as_str()) {
                Ok(()) => {},
                Err(e) => {
                    return Err(e);
                },
            }
            proof {
                assert(cmds.take(i + 1) =~= cmds.take(i as int).push(cmds[i as int]));
            }
            port.sleep_ms(20);
            i = i + 1;
        }
        assert(cmds.take(cmds.len() as int) =~= cmds);
        Ok(Elm327Transport {
            port,
            rx_id,
            read_buf: Vec::new(),
            written,
            sent_log: Ghost(Seq::empty()),
            recv_log: Ghost(Seq::empty()),
            err_log: Ghost(Seq::empty()),
        })
    }
}

impl<P: AdapterPort> CanTransport for Elm327Transport<P> {
    closed spec fn sent_frames(&self) -> Seq<CanFrameView> {
        self.sent_log@
    }

    closed spec fn received_frames(&self) -> Seq<CanFrameView> {
        self.recv_log@
    }

    closed spec fn errors(&self) -> Seq<CanError> {
        self.err_log@
    }

    /// The frame's data as a hex line; the adapter adds the header.
    fn send(&mut self, frame: &CanFrame) -> (r: Result<(), CanError>)
        ensures
            r is Ok ==> final(self).spec_written() == old(self).spec_written().push(
                line_bytes(hex_concat(frame.data@).push('\r')),
            ),
            r is Err ==> final(self).spec_written() == old(self).spec_written(),
    {
        let line = encode_frame_hex(frame.data.as_slice());
        match write_line(&mut self.port, &mut self.written, line.as_str()) {
            Ok(()) => {
                self.sent_log = Ghost(self.sent_log@.push(frame@));
                Ok(())
            },
            Err(e) => self.fail(e),
        }
    }

    /// The next line of hex data bytes, as a frame from the filtered rx id.
    /// Status lines, prompts and lines that are not whole hex bytes of one
    /// classic frame are skipped.
    fn recv(&mut self, timeout_ms: u64) -> (r: Result<CanFrame, CanError>)
        ensures
            r matches Ok(f) ==> f.id == old(self).spec_rx_id() && f.data@.len() <= 8,
            ({
                let buf = old(self).spec_read_buf();
                line_end_from(buf, 0, true) matches Some(p) ==> (elm_decode(line_text(buf.subrange(0, p + 1)))
                    matches HexLineDecode::Bytes(d) ==> (d.len() <= 8 ==> {
                    ||| r matches Ok(f) && f@ == spec_can_frame(old(self).spec_rx_id(), d)
                        && final(self).spec_read_buf() == buf.subrange(p + 1, buf.len() as int)
                        && final(self).received_frames() == old(self).received_frames().push(f@)
                    ||| r == Err::<CanFrame, CanError>(CanError::Timeout) && final(self).spec_read_buf() == buf
                }))
            }),
    {
        let start = instant_now();
        let mut budget: u64 = u64::MAX;
        while budget > 0
            invariant
                self.sent_log == old(self).sent_log,
                self.err_log == old(self).err_log,
                self.recv_log == old(self).recv_log,
                self.rx_id == old(self).rx_id,
                budget == u64::MAX ==> self.read_buf == old(self).read_buf,
                budget < u64::MAX ==> !(line_end_from(old(self).read_buf@, 0, true) matches Some(p) && (elm_decode(
                    line_text(old(self).read_buf@.subrange(0, p + 1)),
                ) matches HexLineDecode::Bytes(d) && d.len() <= 8)),
            decreases budget,
        {
            let remaining = match remaining_ms(timeout_ms, elapsed_ms(&start)) {
                Some(ms) => ms,
                None => {
                    return self.fail(CanError::Timeout);
                },
            };
            let line = match read_line(&mut self.port, &mut self.read_buf, remaining, true) {
                Ok(l) => l,
                Err(e) => {
                    return self.fail(e);
                },
            };
            // A line whose hex pairs would slice through a multi-byte
            // character holds no frame.
            if !response_line_splits(line.as_str()) {
                match decode_response_hex(line.as_str()) {
                    Some(data) => {
                        if data.len() <= 8 {
                            let frame = CanFrame::new(self.rx_id, data);
                            self.recv_log = Ghost(self.recv_log@.push(frame@));
                            return Ok(frame);
                        }
                    },
                    None => {},
                }
            }
            budget = budget - 1;
        }
        self.fail(CanError::Timeout)
    }
}

} // verus!
