//! SLCAN (Lawicel ASCII CAN) line codec, as spoken by CANable-class USB-CAN
//! adapters: `t<id:3 hex><dlc:1 hex><data hex>\r` for standard identifiers,
//! `T<id:8 hex><dlc:1 hex><data hex>\r` for extended ones.

use vstd::prelude::*;
use crate::can::{CanFrame, CanFrameView};
use crate::text::{
    all_upper_hex, hex_digit, is_ws, lemma_hex_concat, lemma_hex_digit, lemma_hex_min_fixed,
    lemma_pair_walk_hex, lemma_pow16_8, lemma_trim_one_trailing, lemma_upper_hex_facts,
    all_ascii, byte_len, byte_len_at_least, char_width, copy_chars, has_boundary, hex_concat,
    hex_digit_value, hex_min, hex_val, is_hex_char, lemma_ascii_byte_len, lemma_byte_len_split,
    pair_walk, parse_hex, parse_hex_range, push_char, push_hex_concat, push_hex_min,
    range_all_ascii, spec_trim, str_chars, trim_chars, walk_pairs, PairWalk, boundary_at,
    char_width_of, pair_walk_splits,
};

verus! {

/// The line `encode_frame` writes for a frame.
pub open spec fn slcan_encode(f: CanFrameView) -> Seq<char> {
    let head = if f.extended {
        seq!['T'] + hex_min(f.id as nat, 8)
    } else {
        seq!['t'] + hex_min(f.id as nat, 3)
    };
    head + hex_min(f.data.len(), 1) + hex_concat(f.data) + seq!['\r']
}

/// What decoding a line amounts to.
pub enum LineDecode {
    /// Byte-index slicing would split a multi-byte character.
    Split,
    /// Not a (valid) frame line.
    Absent,
    Frame(CanFrameView),
}

/// Decoding of one SLCAN line, step by step as the adapter protocol reads it:
/// trim, frame kind, identifier digits, length digit, data digit pairs.
pub open spec fn slcan_decode(line: Seq<char>) -> LineDecode {
    let t = spec_trim(line);
    if t.len() == 0 || (t[0] != 't' && t[0] != 'T') {
        LineDecode::Absent
    } else {
        let extended = t[0] == 'T';
        let l: nat = if extended { 8 } else { 3 };
        let rc = t.subrange(1, t.len() as int);
        if byte_len(rc) < l + 1 {
            LineDecode::Absent
        } else if !(rc.len() >= l && all_ascii(rc.take(l as int))) {
            if has_boundary(rc, l) {
                LineDecode::Absent
            } else {
                LineDecode::Split
            }
        } else {
            match parse_hex(rc.take(l as int)) {
                None => LineDecode::Absent,
                Some(id) => {
                    let c = rc[l as int];
                    if char_width(c) > 1 {
                        LineDecode::Split
                    } else if !is_hex_char(c) || hex_val(c) > 8 {
                        LineDecode::Absent
                    } else {
                        let dlc = hex_val(c);
                        let dc = rc.subrange((l + 1) as int, rc.len() as int);
                        if byte_len(dc) < 2 * dlc {
                            LineDecode::Absent
                        } else {
                            match pair_walk(dc, 0, dlc) {
                                PairWalk::Split => LineDecode::Split,
                                PairWalk::Fail => LineDecode::Absent,
                                PairWalk::Bytes(d) => LineDecode::Frame(
                                    CanFrameView { id: id as u32, extended, data: d },
                                ),
                            }
                        }
                    }
                },
            }
        }
    }
}

/// Encode a frame as one SLCAN line, including the trailing `\r`.
pub fn encode_frame(frame: &CanFrame) -> (s: String)
    ensures
        s@ == slcan_encode(frame@),
{
    let mut s = String::new();
    if frame.extended {
        push_char(&mut s, 'T');
        push_hex_min(&mut s, frame.id as u64, 8);
    } else {
        push_char(&mut s, 't');
        push_hex_min(&mut s, frame.id as u64, 3);
    }
    push_hex_min(&mut s, frame.data.len() as u64, 1);
    push_hex_concat(&mut s, frame.data.as_slice());
    push_char(&mut s, '\r');
    assert(s@ =~= slcan_encode(frame@));
    s
}

/// Whether decoding `line` would slice through a multi-byte character.
pub fn frame_line_splits(line: &str) -> (r: bool)
    ensures
        r == (slcan_decode(line@) is Split),
{
    let all = str_chars(line);
    let t = trim_chars(&all);
    if t.len() == 0 {
        return false;
    }
    let kind = t[0];
    let l: usize;
    if kind == 't' {
        l = 3;
    } else if kind == 'T' {
        l = 8;
    } else {
        return false;
    }
    let rc = copy_chars(&t, 1, t.len());
    assert(rc@.subrange(0, rc@.len() as int) =~= rc@);
    if !byte_len_at_least(&rc, 0, (l + 1) as u64) {
        return false;
    }
    if !(rc.len() >= l && range_all_ascii(&rc, 0, l)) {
        if rc.len() >= l {
            assert(rc@.subrange(0, l as int) =~= rc@.take(l as int));
        }
        return !boundary_at(&rc, 0, l);
    }
    assert(rc@.subrange(0, l as int) =~= rc@.take(l as int));
    match parse_hex_range(&rc, 0, l) {
        None => {
            return false;
        },
        Some(_) => {},
    }
    proof {
        lemma_byte_len_split(rc@, l as int);
        lemma_ascii_byte_len(rc@.take(l as int));
        if rc@.len() == l {
            assert(rc@.subrange(l as int, rc@.len() as int) =~= Seq::<char>::empty());
        }
    }
    let c = rc[l];
    if char_width_of(c) > 1 {
        return true;
    }
    let dlc = match hex_digit_value(c) {
        None => {
            return false;
        },
        Some(d) => d,
    };
    if dlc > 8 {
        return false;
    }
    let dc = copy_chars(&rc, l + 1, rc.len());
    assert(dc@.subrange(0, dc@.len() as int) =~= dc@);
    if !byte_len_at_least(&dc, 0, 2 * dlc as u64) {
        return false;
    }
    pair_walk_splits(&dc, dlc as u128)
}

/// Decode one SLCAN line (a `t...`/`T...` frame). Anything else (acks,
/// errors, other Lawicel commands, malformed frames) decodes to `None`.
pub fn decode_frame(line: &str) -> (r: Option<CanFrame>)
    requires
        !(slcan_decode(line@) is Split),
    ensures
        match slcan_decode(line@) {
            LineDecode::Frame(f) => r matches Some(x) && x@ == f,
            _ => r is None,
        },
{
    let all = str_chars(line);
    let t = trim_chars(&all);
    if t.len() == 0 {
        return None;
    }
    let kind = t[0];
    let extended: bool;
    let l: usize;
    if kind == 't' {
        extended = false;
        l = 3;
    } else if kind == 'T' {
        extended = true;
        l = 8;
    } else {
        return None;
    }
    let rc = copy_chars(&t, 1, t.len());
    if !byte_len_at_least(&rc, 0, (l + 1) as u64) {
        assert(rc@.subrange(0, rc@.len() as int) =~= rc@);
        return None;
    }
    assert(rc@.subrange(0, rc@.len() as int) =~= rc@);
    if !(rc.len() >= l && range_all_ascii(&rc, 0, l)) {
        if rc.len() >= l {
            assert(rc@.subrange(0, l as int) =~= rc@.take(l as int));
        }
        return None;
    }
    assert(rc@.subrange(0, l as int) =~= rc@.take(l as int));
    let id = match parse_hex_range(&rc, 0, l) {
        None => {
            return None;
        },
        Some(id) => id,
    };
    proof {
        lemma_byte_len_split(rc@, l as int);
        lemma_ascii_byte_len(rc@.take(l as int));
        if rc@.len() == l {
            assert(rc@.subrange(l as int, rc@.len() as int) =~= Seq::<char>::empty());
        }
    }
    let c = rc[l];
    let dlc = match hex_digit_value(c) {
        None => {
            return None;
        },
        Some(d) => d,
    };
    if dlc > 8 {
        return None;
    }
    let dc = copy_chars(&rc, l + 1, rc.len());
    if !byte_len_at_least(&dc, 0, 2 * dlc as u64) {
        assert(dc@.subrange(0, dc@.len() as int) =~= dc@);
        return None;
    }
    assert(dc@.subrange(0, dc@.len() as int) =~= dc@);
    match walk_pairs(&dc, dlc as u128) {
        None => None,
        Some(data) => {
            proof {
                assert(id as nat as u32 == id);
            }
            Some(CanFrame { id, extended, data })
        },
    }
}

/// Law: decoding the line a frame is encoded as gives the frame back, for
/// every classic frame whose identifier fits its line format (any 32-bit id
/// for extended frames, three hex digits for standard ones).
pub proof fn lemma_slcan_roundtrip(f: CanFrameView)
    requires
        f.data.len() <= 8,
        !f.extended ==> f.id < 0x1000,
    ensures
        slcan_decode(slcan_encode(f)) == LineDecode::Frame(f),
{
    let l: nat = if f.extended { 8 } else { 3 };
    let kind = if f.extended { 'T' } else { 't' };
    lemma_pow16_8();
    lemma_hex_min_fixed(f.id as nat, l);
    let idh = hex_min(f.id as nat, l);
    let len = f.data.len();
    lemma_hex_digit(len);
    assert(hex_min(len, 1) == seq![hex_digit(len)]);
    lemma_hex_concat(f.data);
    let dh = hex_concat(f.data);
    let rc = idh + seq![hex_digit(len)] + dh;
    let body = seq![kind] + rc;
    assert(slcan_encode(f) =~= body.push('\r'));
    lemma_upper_hex_facts(idh);
    lemma_upper_hex_facts(dh);
    assert forall|i: int| 0 <= i < body.len() implies !is_ws(#[trigger] body[i]) by {
        if i > 0 {
            let j = i - 1;
            assert(body[i] == rc[j]);
            if j < l {
                assert(rc[j] == idh[j]);
            } else if j > l {
                assert(rc[j] == dh[j - l - 1]);
            }
        }
    }
    lemma_trim_one_trailing(body, '\r');
    let t = spec_trim(slcan_encode(f));
    assert(t == body);
    assert(t.subrange(1, t.len() as int) =~= rc);
    assert(all_upper_hex(rc)) by {
        assert forall|i: int| 0 <= i < rc.len() implies (('0' <= #[trigger] rc[i] && rc[i] <= '9') || ('A' <= rc[i]
            && rc[i] <= 'F')) by {
            if i < l {
                assert(rc[i] == idh[i]);
            } else if i > l {
                assert(rc[i] == dh[i - l - 1]);
            }
        }
    }
    lemma_upper_hex_facts(rc);
    lemma_ascii_byte_len(rc);
    assert(rc.take(l as int) =~= idh);
    assert(all_ascii(rc.take(l as int)));
    assert(parse_hex(idh) == Some(f.id as nat));
    assert(rc[l as int] == hex_digit(len));
    let dc = rc.subrange((l + 1) as int, rc.len() as int);
    assert(dc =~= dh);
    lemma_ascii_byte_len(dh);
    lemma_pair_walk_hex(f.data, 0);
    assert(f.data.subrange(0, len as int) =~= f.data);
}

} // verus!
