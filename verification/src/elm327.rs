//! ELM327/STN-class AT-command adapter line codec. In its default
//! "headers off" mode a response line is bare hex data bytes; the CAN id is
//! configured out of band.

use vstd::prelude::*;
use crate::text::{
    ascii_lower, lemma_ascii_byte_len, lemma_elm_clean_keeps, lemma_hex_concat,
    lemma_pair_walk_hex, lemma_upper_hex_facts,
    byte_len, chars_byte_len, chars_eq_ignore_ascii_case, elm_clean, eq_ignore_ascii_case,
    hex_concat, is_whitespace_char, pair_walk, pair_walk_splits, push_char, push_hex_concat, str_chars, walk_pairs,
    PairWalk,
};

verus! {

/// What decoding a response line amounts to.
pub enum HexLineDecode {
    /// Byte-index slicing would split a multi-byte character.
    Split,
    /// A status line (`NO DATA`, `ERROR`, `OK`), an empty line, or not hex.
    Absent,
    Bytes(Seq<u8>),
}

/// The line with whitespace and the `>` prompt removed is empty, a status
/// word, of odd byte length, or decoded two hex digits per byte.
pub open spec fn elm_decode(line: Seq<char>) -> HexLineDecode {
    let c = elm_clean(line);
    if c.len() == 0 || eq_ignore_ascii_case(c, "NODATA"@) || eq_ignore_ascii_case(c, "ERROR"@)
        || eq_ignore_ascii_case(c, "OK"@) {
        HexLineDecode::Absent
    } else if byte_len(c) % 2 != 0 {
        HexLineDecode::Absent
    } else {
        match pair_walk(c, 0, byte_len(c) / 2) {
            PairWalk::Split => HexLineDecode::Split,
            PairWalk::Fail => HexLineDecode::Absent,
            PairWalk::Bytes(d) => HexLineDecode::Bytes(d),
        }
    }
}

/// Format an AT command line, with its trailing `\r`.
pub fn encode_at_command(cmd: &str) -> (s: String)
    ensures
        s@ == cmd@.push('\r'),
{
    let mut s = String::from_str(cmd);
    push_char(&mut s, '\r');
    s
}

/// The hex line ELM327 expects for a request's data bytes.
pub fn encode_frame_hex(data: &[u8]) -> (s: String)
    ensures
        s@ == hex_concat(data@).push('\r'),
{
    let mut s = String::new();
    push_hex_concat(&mut s, data);
    push_char(&mut s, '\r');
    assert(s@ =~= hex_concat(data@).push('\r'));
    s
}

fn clean_chars(v: &Vec<char>) -> (r: Vec<char>)
    ensures
        r@ == elm_clean(v@),
{
    let mut out: Vec<char> = Vec::new();
    let mut i: usize = 0;
    while i < v.len()
        invariant
            i <= v@.len(),
            out@ == elm_clean(v@.take(i as int)),
        decreases v@.len() - i,
    {
        proof {
            assert(v@.take(i + 1).drop_last() =~= v@.take(i as int));
        }
        let c = v[i];
        if !(is_whitespace_char(c) || c == '>') {
            out.push(c);
        }
        i = i + 1;
    }
    assert(v@.take(v@.len() as int) =~= v@);
    out
}

/// Whether decoding `line` would slice through a multi-byte character.
pub fn response_line_splits(line: &str) -> (r: bool)
    ensures
        r == (elm_decode(line@) is Split),
{
    let all = str_chars(line);
    let cleaned = clean_chars(&all);
    if cleaned.len() == 0 || chars_eq_ignore_ascii_case(&cleaned, "NODATA")
        || chars_eq_ignore_ascii_case(&cleaned, "ERROR") || chars_eq_ignore_ascii_case(
        &cleaned,
        "OK",
    ) {
        return false;
    }
    let n = chars_byte_len(&cleaned);
    if n % 2 != 0 {
        return false;
    }
    pair_walk_splits(&cleaned, n / 2)
}

/// Parse one ELM327 response line into raw bytes; `NO DATA`, `ERROR`, `OK`,
/// empty lines and anything that is not whole hex bytes give `None`.
pub fn decode_response_hex(line: &str) -> (r: Option<Vec<u8>>)
    requires
        !(elm_decode(line@) is Split),
    ensures
        match elm_decode(line@) {
            HexLineDecode::Bytes(d) => r matches Some(v) && v@ == d,
            _ => r is None,
        },
{
    let all = str_chars(line);
    let cleaned = clean_chars(&all);
    if cleaned.len() == 0 || chars_eq_ignore_ascii_case(&cleaned, "NODATA")
        || chars_eq_ignore_ascii_case(&cleaned, "ERROR") || chars_eq_ignore_ascii_case(
        &cleaned,
        "OK",
    ) {
        return None;
    }
    let n = chars_byte_len(&cleaned);
    if n % 2 != 0 {
        return None;
    }
    walk_pairs(&cleaned, n / 2)
}

/// Law: a non-empty request line decodes back to its bytes.
pub proof fn lemma_elm_roundtrip(data: Seq<u8>)
    requires
        data.len() > 0,
    ensures
        elm_decode(hex_concat(data).push('\r')) == HexLineDecode::Bytes(data),
{
    let hc = hex_concat(data);
    lemma_hex_concat(data);
    lemma_upper_hex_facts(hc);
    lemma_elm_clean_keeps(hc);
    let line = hc.push('\r');
    assert(line.drop_last() =~= hc);
    assert(elm_clean(line) == hc);
    reveal_strlit("NODATA");
    reveal_strlit("ERROR");
    reveal_strlit("OK");
    assert(!eq_ignore_ascii_case(hc, "NODATA"@)) by {
        if hc.len() == 6 {
            assert(ascii_lower(hc[0]) != ascii_lower("NODATA"@[0]));
        }
    }
    assert(!eq_ignore_ascii_case(hc, "ERROR"@)) by {
        assert(hc.len() != 5);
    }
    assert(!eq_ignore_ascii_case(hc, "OK"@)) by {
        if hc.len() == 2 {
            assert(ascii_lower(hc[0]) != ascii_lower("OK"@[0]));
        }
    }
    lemma_ascii_byte_len(hc);
    lemma_pair_walk_hex(data, 0);
    assert(data.subrange(0, data.len() as int) =~= data);
}

} // verus!
