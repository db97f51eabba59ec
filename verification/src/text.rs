//! Text helpers shared by the line codecs and reports: uppercase hex digits,
//! building strings, and reading a string's characters.

use vstd::prelude::*;

verus! {

/// The uppercase hex digit for `n` (`n < 16`).
pub open spec fn hex_digit(n: nat) -> char {
    if n < 10 {
        (48 + n) as char
    } else {
        (55 + n) as char
    }
}

/// Two uppercase hex digits for a byte, as `{:02X}` writes it.
pub open spec fn hex2(b: u8) -> Seq<char> {
    seq![hex_digit((b / 16) as nat), hex_digit((b % 16) as nat)]
}

/// Hex digits of a byte sequence, two per byte, no separators.
pub open spec fn hex_concat(bytes: Seq<u8>) -> Seq<char>
    decreases bytes.len(),
{
    if bytes.len() == 0 {
        Seq::empty()
    } else {
        hex_concat(bytes.drop_last()) + hex2(bytes.last())
    }
}

pub fn hex_digit_char(n: u8) -> (c: char)
    requires
        n < 16,
    ensures
        c == hex_digit(n as nat),
{
    if n < 10 {
        (48 + n) as char
    } else {
        (55 + n) as char
    }
}

/// Calls `String::push`: appends one character.
#[verifier::external_body]
pub(crate) fn push_char(s: &mut String, c: char)
    ensures
        final(s)@ == old(s)@.push(c),
{
    s.push(c);
}

/// Appends the two uppercase hex digits of `b`.
pub fn push_hex2(s: &mut String, b: u8)
    ensures
        final(s)@ == old(s)@ + hex2(b),
{
    push_char(s, hex_digit_char(b / 16));
    push_char(s, hex_digit_char(b % 16));
    assert(s@ =~= old(s)@ + hex2(b));
}

/// The characters of a string slice, one per element.
pub fn str_chars(s: &str) -> (v: Vec<char>)
    ensures
        v@ == s@,
{
    let n = s.unicode_len();
    let mut v: Vec<char> = Vec::new();
    let mut i: usize = 0;
    while i < n
        invariant
            i <= n,
            n == s@.len(),
            v@ =~= s@.take(i as int),
        decreases n - i,
    {
        v.push(s.get_char(i));
        i = i + 1;
        assert(v@ =~= s@.take(i as int));
    }
    assert(s@.take(n as int) =~= s@);
    v
}

/// Bytes a character takes in UTF-8.
pub open spec fn char_width(c: char) -> nat {
    let u = c as u32;
    if u < 0x80 {
        1
    } else if u < 0x800 {
        2
    } else if u < 0x10000 {
        3
    } else {
        4
    }
}

/// Bytes a character sequence takes in UTF-8 (what `str::len` counts).
pub open spec fn byte_len(s: Seq<char>) -> nat
    decreases s.len(),
{
    if s.len() == 0 {
        0
    } else {
        byte_len(s.drop_last()) + char_width(s.last())
    }
}

pub open spec fn is_ascii_char(c: char) -> bool {
    (c as u32) < 0x80
}

pub open spec fn all_ascii(s: Seq<char>) -> bool {
    forall|i: int| 0 <= i < s.len() ==> is_ascii_char(#[trigger] s[i])
}

/// Unicode White_Space, the set `char::is_whitespace` and `str::trim` use.
pub open spec fn is_ws(c: char) -> bool {
    let u = c as u32;
    (9 <= u && u <= 13) || u == 32 || u == 0x85 || u == 0xA0 || u == 0x1680 || (0x2000 <= u && u
        <= 0x200A) || u == 0x2028 || u == 0x2029 || u == 0x202F || u == 0x205F || u == 0x3000
}

pub open spec fn trim_start(s: Seq<char>) -> Seq<char>
    decreases s.len(),
{
    if s.len() > 0 && is_ws(s[0]) {
        trim_start(s.subrange(1, s.len() as int))
    } else {
        s
    }
}

pub open spec fn trim_end(s: Seq<char>) -> Seq<char>
    decreases s.len(),
{
    if s.len() > 0 && is_ws(s.last()) {
        trim_end(s.drop_last())
    } else {
        s
    }
}

/// What `str::trim` leaves: no leading or trailing whitespace.
pub open spec fn spec_trim(s: Seq<char>) -> Seq<char> {
    trim_end(trim_start(s))
}

/// A digit `char::to_digit(16)` accepts.
pub open spec fn is_hex_char(c: char) -> bool {
    ('0' <= c && c <= '9') || ('a' <= c && c <= 'f') || ('A' <= c && c <= 'F')
}

pub open spec fn hex_val(c: char) -> nat {
    if '0' <= c && c <= '9' {
        (c as u32 - 48) as nat
    } else if 'a' <= c && c <= 'f' {
        (c as u32 - 87) as nat
    } else {
        (c as u32 - 55) as nat
    }
}

pub open spec fn all_hex(s: Seq<char>) -> bool {
    forall|i: int| 0 <= i < s.len() ==> is_hex_char(#[trigger] s[i])
}

/// The value of a string of hex digits, most significant first.
pub open spec fn hex_value(s: Seq<char>) -> nat
    decreases s.len(),
{
    if s.len() == 0 {
        0
    } else {
        hex_value(s.drop_last()) * 16 + hex_val(s.last())
    }
}

/// What `from_str_radix(s, 16)` gives for an unsigned type wide enough for
/// the value: an optional leading `+`, then at least one hex digit.
pub open spec fn parse_hex(s: Seq<char>) -> Option<nat> {
    let digits = if s.len() > 0 && s[0] == '+' { s.subrange(1, s.len() as int) } else { s };
    if digits.len() == 0 || !all_hex(digits) {
        None
    } else {
        Some(hex_value(digits))
    }
}

pub fn is_whitespace_char(c: char) -> (r: bool)
    ensures
        r == is_ws(c),
{
    let u = c as u32;
    (9 <= u && u <= 13) || u == 32 || u == 0x85 || u == 0xA0 || u == 0x1680 || (0x2000 <= u && u
        <= 0x200A) || u == 0x2028 || u == 0x2029 || u == 0x202F || u == 0x205F || u == 0x3000
}

pub fn char_width_of(c: char) -> (w: usize)
    ensures
        w == char_width(c),
{
    let u = c as u32;
    if u < 0x80 {
        1
    } else if u < 0x800 {
        2
    } else if u < 0x10000 {
        3
    } else {
        4
    }
}

/// The value of a hex digit, or `None` for any other character.
pub fn hex_digit_value(c: char) -> (r: Option<u8>)
    ensures
        r matches Some(v) ==> is_hex_char(c) && v == hex_val(c),
        r is None ==> !is_hex_char(c),
{
    if '0' <= c && c <= '9' {
        Some((c as u32 - 48) as u8)
    } else if 'a' <= c && c <= 'f' {
        Some((c as u32 - 87) as u8)
    } else if 'A' <= c && c <= 'F' {
        Some((c as u32 - 55) as u8)
    } else {
        None
    }
}

proof fn lemma_hex_value_bound(s: Seq<char>)
    requires
        all_hex(s),
    ensures
        hex_value(s) < pow16(s.len()),
    decreases s.len(),
{
    if s.len() > 0 {
        assert(all_hex(s.drop_last()));
        assert(is_hex_char(s.last()));
        lemma_hex_value_bound(s.drop_last());
        assert(hex_val(s.last()) < 16);
        assert(pow16(s.len()) == pow16((s.len() - 1) as nat) * 16);
    }
}

pub open spec fn pow16(n: nat) -> nat
    decreases n,
{
    if n == 0 {
        1
    } else {
        pow16((n - 1) as nat) * 16
    }
}

/// Parse `v[start..end]` as `from_str_radix(_, 16)` does; the slice holds
/// at most 8 characters, so the value fits a `u32`.
pub fn parse_hex_range(v: &Vec<char>, start: usize, end: usize) -> (r: Option<u32>)
    requires
        start <= end <= v@.len(),
        end - start <= 8,
    ensures
        r matches Some(x) ==> parse_hex(v@.subrange(start as int, end as int)) == Some(x as nat),
        r is None ==> parse_hex(v@.subrange(start as int, end as int)) is None,
{
    let ghost s = v@.subrange(start as int, end as int);
    let mut i = start;
    if i < end && v[i] == '+' {
        i = i + 1;
    }
    let ghost digits = v@.subrange(i as int, end as int);
    assert(digits =~= (if s.len() > 0 && s[0] == '+' { s.subrange(1, s.len() as int) } else { s }));
    if i == end {
        return None;
    }
    let mut acc: u64 = 0;
    let mut k = i;
    while k < end
        invariant
            i <= k <= end,
            end <= v@.len(),
            end - i <= 8,
            digits == v@.subrange(i as int, end as int),
            s == v@.subrange(start as int, end as int),
            digits == (if s.len() > 0 && s[0] == '+' { s.subrange(1, s.len() as int) } else { s }),
            digits.len() > 0,
            all_hex(v@.subrange(i as int, k as int)),
            acc == hex_value(v@.subrange(i as int, k as int)),
            acc < pow16((k - i) as nat),
        decreases end - k,
    {
        match hex_digit_value(v[k]) {
            Some(d) => {
                proof {
                    let pre = v@.subrange(i as int, k as int);
                    let next = v@.subrange(i as int, k + 1);
                    assert(next.drop_last() =~= pre);
                    assert(next.last() == v@[k as int]);
                    assert(pow16((k + 1 - i) as nat) == pow16((k - i) as nat) * 16);
                    assert(pow16((k - i) as nat) <= pow16(7)) by {
                        lemma_pow16_mono((k - i) as nat, 7);
                    }
                    lemma_pow16_values();
                    assert forall|j: int| 0 <= j < next.len() implies is_hex_char(#[trigger] next[j]) by {
                        if j < pre.len() {
                            assert(next[j] == pre[j]);
                        }
                    }
                }
                acc = acc * 16 + d as u64;
                k = k + 1;
            },
            None => {
                proof {
                    assert(digits[k - i] == v@[k as int]);
                    assert(!all_hex(digits));
                }
                return None;
            },
        }
    }
    proof {
        assert(pow16((end - i) as nat) <= pow16(8)) by {
            lemma_pow16_mono((end - i) as nat, 8);
        }
        lemma_pow16_values();
        assert(v@.subrange(i as int, k as int) =~= digits);
    }
    Some(acc as u32)
}

proof fn lemma_parse_hex_bound(s: Seq<char>)
    ensures
        parse_hex(s) matches Some(v) ==> v < pow16(s.len()),
{
    let digits = if s.len() > 0 && s[0] == '+' { s.subrange(1, s.len() as int) } else { s };
    if digits.len() > 0 && all_hex(digits) {
        lemma_hex_value_bound(digits);
        lemma_pow16_mono(digits.len(), s.len());
    }
}

proof fn lemma_pow16_values()
    ensures
        pow16(1) == 16,
        pow16(2) == 256,
        pow16(3) == 0x1000,
        pow16(7) == 0x1000_0000,
        pow16(8) == 0x1_0000_0000,
{
    assert(pow16(0) == 1);
    assert(pow16(1) == 16);
    assert(pow16(2) == 256);
    assert(pow16(3) == 0x1000);
    assert(pow16(4) == 0x1_0000);
    assert(pow16(5) == 0x10_0000);
    assert(pow16(6) == 0x100_0000);
    assert(pow16(7) == 0x1000_0000);
    assert(pow16(8) == 0x1_0000_0000);
}

proof fn lemma_pow16_mono(a: nat, b: nat)
    requires
        a <= b,
    ensures
        pow16(a) <= pow16(b),
    decreases b,
{
    if a < b {
        lemma_pow16_mono(a, (b - 1) as nat);
    }
}

/// Result of decoding hex digit pairs from a character sequence whose bytes
/// are walked two at a time, as string slicing by byte index does.
pub enum PairWalk {
    /// A byte-index slice would split a character (string slicing panics).
    Split,
    /// Some pair is not a hex byte.
    Fail,
    Bytes(Seq<u8>),
}

/// Decode pairs `i..n` of `s`, where the characters before pair `i` are all
/// single-byte, so pair `k` starts at character `2k`.
pub open spec fn pair_walk(s: Seq<char>, i: nat, n: nat) -> PairWalk
    decreases n - i,
{
    if i >= n {
        PairWalk::Bytes(Seq::empty())
    } else if 2 * i >= s.len() {
        PairWalk::Fail
    } else {
        let a = s[(2 * i) as int];
        if char_width(a) >= 3 {
            PairWalk::Split
        } else if char_width(a) == 2 {
            PairWalk::Fail
        } else if 2 * i + 1 >= s.len() {
            PairWalk::Fail
        } else {
            let b = s[(2 * i + 1) as int];
            if char_width(b) > 1 {
                PairWalk::Split
            } else {
                match parse_hex(seq![a, b]) {
                    None => PairWalk::Fail,
                    Some(v) => match pair_walk(s, i + 1, n) {
                        PairWalk::Bytes(rest) => PairWalk::Bytes(seq![v as u8] + rest),
                        other => other,
                    },
                }
            }
        }
    }
}

/// Walk `n` hex pairs of `v` as byte-index slicing followed by
/// `u8::from_str_radix` does; `None` for a failed pair.
pub fn walk_pairs(v: &Vec<char>, n: u128) -> (r: Option<Vec<u8>>)
    requires
        !(pair_walk(v@, 0, n as nat) is Split),
    ensures
        r matches Some(b) ==> pair_walk(v@, 0, n as nat) == PairWalk::Bytes(b@),
        r is None ==> pair_walk(v@, 0, n as nat) is Fail,
{
    let mut out: Vec<u8> = Vec::new();
    let mut i: usize = 0;
    let vlen = v.len();
    let half = vlen / 2 + vlen % 2;
    while (i as u128) < n
        invariant
            i <= half,
            vlen == v@.len(),
            half == v@.len() / 2 + v@.len() % 2,
            !(pair_walk(v@, 0, n as nat) is Split),
            pair_walk(v@, 0, n as nat) == (match pair_walk(v@, i as nat, n as nat) {
                PairWalk::Bytes(rest) => PairWalk::Bytes(out@ + rest),
                other => other,
            }),
        decreases n - i,
    {
        if i >= half {
            proof {
                assert(2 * i >= v@.len());
            }
            return None;
        }
        assert(2 * i < v@.len());
        let a = v[2 * i];
        let wa = char_width_of(a);
        if wa >= 2 {
            return None;
        }
        if 2 * i + 1 >= v.len() {
            return None;
        }
        let b = v[2 * i + 1];
        if char_width_of(b) > 1 {
            return None;
        }
        let ghost pair = seq![a, b];
        assert(v@.subrange(2 * i as int, 2 * i + 2) =~= pair);
        match parse_hex_range(v, 2 * i, 2 * i + 2) {
            None => {
                return None;
            },
            Some(x) => {
                proof {
                    assert(x < 256) by {
                        lemma_parse_hex_bound(pair);
                        lemma_pow16_values();
                    }
                    let ghost rest_walk = pair_walk(v@, (i + 1) as nat, n as nat);
                    match rest_walk {
                        PairWalk::Bytes(rest) => {
                            assert(out@ + (seq![x as u8] + rest) =~= out@.push(x as u8) + rest);
                        },
                        _ => {},
                    }
                }
                out.push(x as u8);
                i = i + 1;
            },
        }
    }
    assert(out@ + Seq::<u8>::empty() =~= out@);
    Some(out)
}

/// Whether walking `n` hex pairs of `v` would split a character.
pub fn pair_walk_splits(v: &Vec<char>, n: u128) -> (r: bool)
    ensures
        r == (pair_walk(v@, 0, n as nat) is Split),
{
    let mut i: usize = 0;
    let vlen = v.len();
    let half = vlen / 2 + vlen % 2;
    while (i as u128) < n
        invariant
            i <= half,
            vlen == v@.len(),
            half == v@.len() / 2 + v@.len() % 2,
            (pair_walk(v@, 0, n as nat) is Split) == (pair_walk(v@, i as nat, n as nat) is Split),
        decreases n - i,
    {
        if i >= half {
            return false;
        }
        let a = v[2 * i];
        let wa = char_width_of(a);
        if wa >= 3 {
            return true;
        }
        if wa == 2 {
            return false;
        }
        if 2 * i + 1 >= v.len() {
            return false;
        }
        let b = v[2 * i + 1];
        if char_width_of(b) > 1 {
            return true;
        }
        let ghost pair = seq![a, b];
        assert(v@.subrange(2 * i as int, 2 * i + 2) =~= pair);
        match parse_hex_range(v, 2 * i, 2 * i + 2) {
            None => {
                return false;
            },
            Some(_) => {
                i = i + 1;
            },
        }
    }
    false
}

/// The characters of `v` without leading and trailing whitespace.
pub fn trim_chars(v: &Vec<char>) -> (r: Vec<char>)
    ensures
        r@ == spec_trim(v@),
{
    let n = v.len();
    let mut i: usize = 0;
    assert(v@.subrange(0, n as int) =~= v@);
    while i < n && is_whitespace_char(v[i])
        invariant
            i <= n,
            n == v@.len(),
            trim_start(v@) == trim_start(v@.subrange(i as int, n as int)),
        decreases n - i,
    {
        proof {
            let cur = v@.subrange(i as int, n as int);
            assert(cur.subrange(1, cur.len() as int) =~= v@.subrange(i + 1, n as int));
        }
        i = i + 1;
    }
    let ghost started = v@.subrange(i as int, n as int);
    assert(trim_start(started) == started);
    let mut j: usize = n;
    while j > i && is_whitespace_char(v[j - 1])
        invariant
            i <= j <= n,
            n == v@.len(),
            started == v@.subrange(i as int, n as int),
            trim_end(started) == trim_end(v@.subrange(i as int, j as int)),
        decreases j,
    {
        proof {
            let cur = v@.subrange(i as int, j as int);
            assert(cur.drop_last() =~= v@.subrange(i as int, j - 1));
        }
        j = j - 1;
    }
    let mut out: Vec<char> = Vec::new();
    let mut k = i;
    while k < j
        invariant
            i <= k <= j,
            j <= v@.len(),
            out@ =~= v@.subrange(i as int, k as int),
        decreases j - k,
    {
        out.push(v[k]);
        k = k + 1;
    }
    out
}

/// The characters of `v` that are neither whitespace nor `'>'`.
pub open spec fn elm_clean(s: Seq<char>) -> Seq<char>
    decreases s.len(),
{
    if s.len() == 0 {
        Seq::empty()
    } else if is_ws(s.last()) || s.last() == '>' {
        elm_clean(s.drop_last())
    } else {
        elm_clean(s.drop_last()).push(s.last())
    }
}

/// ASCII-only lowercase, as `eq_ignore_ascii_case` compares.
pub open spec fn ascii_lower(c: char) -> char {
    if 'A' <= c && c <= 'Z' {
        ((c as u32) + 32) as char
    } else {
        c
    }
}

pub open spec fn eq_ignore_ascii_case(a: Seq<char>, b: Seq<char>) -> bool {
    a.len() == b.len() && forall|i: int| 0 <= i < a.len() ==> ascii_lower(#[trigger] a[i])
        == ascii_lower(b[i])
}

fn ascii_lower_char(c: char) -> (r: char)
    ensures
        r == ascii_lower(c),
{
    if 'A' <= c && c <= 'Z' {
        ((c as u32 as u8) + 32) as char
    } else {
        c
    }
}

/// Whether `a` equals the ASCII string `b`, ignoring ASCII case.
pub fn chars_eq_ignore_ascii_case(a: &Vec<char>, b: &str) -> (r: bool)
    ensures
        r == eq_ignore_ascii_case(a@, b@),
{
    let bv = str_chars(b);
    if a.len() != bv.len() {
        return false;
    }
    let mut i: usize = 0;
    while i < a.len()
        invariant
            i <= a@.len(),
            a@.len() == bv@.len(),
            bv@ == b@,
            forall|k: int| 0 <= k < i ==> ascii_lower(#[trigger] a@[k]) == ascii_lower(bv@[k]),
        decreases a@.len() - i,
    {
        if ascii_lower_char(a[i]) != ascii_lower_char(bv[i]) {
            return false;
        }
        i = i + 1;
    }
    true
}

/// Sum of the UTF-8 widths of `v`'s characters.
pub fn chars_byte_len(v: &Vec<char>) -> (n: u128)
    ensures
        n == byte_len(v@),
{
    let mut n: u128 = 0;
    let mut i: usize = 0;
    while i < v.len()
        invariant
            i <= v@.len(),
            n == byte_len(v@.take(i as int)),
            n <= 4 * i,
        decreases v@.len() - i,
    {
        proof {
            assert(v@.take(i + 1).drop_last() =~= v@.take(i as int));
        }
        n = n + char_width_of(v[i]) as u128;
        i = i + 1;
    }
    assert(v@.take(v@.len() as int) =~= v@);
    n
}

/// Hex digits of `n`, zero-padded to at least `width` digits (`{:0wX}`).
pub open spec fn hex_min(n: nat, width: nat) -> Seq<char>
    decreases n + width,
{
    if n < 16 && width <= 1 {
        seq![hex_digit(n)]
    } else {
        hex_min(n / 16, if width > 0 { (width - 1) as nat } else { 0 }) + seq![hex_digit(n % 16)]
    }
}

/// Appends `n` in uppercase hex, zero-padded to at least `width` digits.
pub fn push_hex_min(s: &mut String, n: u64, width: u64)
    requires
        width <= 16,
    ensures
        final(s)@ == old(s)@ + hex_min(n as nat, width as nat),
    decreases n + width,
{
    if n < 16 && width <= 1 {
        push_char(s, hex_digit_char(n as u8));
        assert(s@ =~= old(s)@ + hex_min(n as nat, width as nat));
    } else {
        let w = if width > 0 { width - 1 } else { 0 };
        push_hex_min(s, n / 16, w);
        push_char(s, hex_digit_char((n % 16) as u8));
        assert(s@ =~= old(s)@ + hex_min(n as nat, width as nat));
    }
}

/// Appends the two-digit uppercase hex of every byte, in order.
pub fn push_hex_concat(s: &mut String, bytes: &[u8])
    ensures
        final(s)@ == old(s)@ + hex_concat(bytes@),
{
    let mut i: usize = 0;
    while i < bytes.len()
        invariant
            i <= bytes@.len(),
            s@ == old(s)@ + hex_concat(bytes@.take(i as int)),
        decreases bytes@.len() - i,
    {
        proof {
            assert(bytes@.take(i + 1).drop_last() =~= bytes@.take(i as int));
        }
        push_hex2(s, bytes[i]);
        i = i + 1;
        assert(s@ =~= old(s)@ + hex_concat(bytes@.take(i as int)));
    }
    assert(bytes@.take(bytes@.len() as int) =~= bytes@);
}

/// Decimal digits of `n`, as `{}` writes an unsigned integer.
pub open spec fn decimal(n: nat) -> Seq<char>
    decreases n,
{
    if n < 10 {
        seq![(48 + n) as char]
    } else {
        decimal(n / 10) + seq![(48 + n % 10) as char]
    }
}

/// Appends `n` in decimal.
pub fn push_decimal(s: &mut String, n: u64)
    ensures
        final(s)@ == old(s)@ + decimal(n as nat),
    decreases n,
{
    if n < 10 {
        push_char(s, (48 + n as u8) as char);
        assert(s@ =~= old(s)@ + decimal(n as nat));
    } else {
        push_decimal(s, n / 10);
        push_char(s, (48 + (n % 10) as u8) as char);
        assert(s@ =~= old(s)@ + decimal(n as nat));
    }
}

/// Whether two byte strings are equal.
pub fn bytes_eq(a: &[u8], b: &[u8]) -> (r: bool)
    ensures
        r == (a@ == b@),
{
    if a.len() != b.len() {
        return false;
    }
    let mut i: usize = 0;
    while i < a.len()
        invariant
            i <= a@.len(),
            a@.len() == b@.len(),
            forall|j: int| 0 <= j < i ==> a@[j] == b@[j],
        decreases a@.len() - i,
    {
        if a[i] != b[i] {
            return false;
        }
        i = i + 1;
    }
    assert(a@ =~= b@);
    true
}

/// Nothing but whitespace: what `s.trim().is_empty()` tests.
pub open spec fn is_blank(s: Seq<char>) -> bool {
    forall|i: int| 0 <= i < s.len() ==> is_ws(#[trigger] s[i])
}

/// `p` is a prefix of `s`: what `s.starts_with(p)` tests.
pub open spec fn starts_with(s: Seq<char>, p: Seq<char>) -> bool {
    p.len() <= s.len() && s.take(p.len() as int) == p
}

pub fn is_blank_str(s: &str) -> (r: bool)
    ensures
        r == is_blank(s@),
{
    let n = s.unicode_len();
    let mut i: usize = 0;
    while i < n
        invariant
            i <= n,
            n == s@.len(),
            forall|j: int| 0 <= j < i ==> is_ws(#[trigger] s@[j]),
        decreases n - i,
    {
        if !is_whitespace_char(s.get_char(i)) {
            return false;
        }
        i = i + 1;
    }
    true
}

pub fn has_prefix(s: &str, p: &str) -> (r: bool)
    ensures
        r == starts_with(s@, p@),
{
    let n = s.unicode_len();
    let m = p.unicode_len();
    if m > n {
        return false;
    }
    let mut i: usize = 0;
    while i < m
        invariant
            i <= m <= n,
            n == s@.len(),
            m == p@.len(),
            forall|j: int| 0 <= j < i ==> s@[j] == p@[j],
        decreases m - i,
    {
        if s.get_char(i) != p.get_char(i) {
            assert(s@.take(m as int)[i as int] != p@[i as int]);
            return false;
        }
        i = i + 1;
    }
    assert(s@.take(m as int) =~= p@);
    true
}

pub fn str_eq(a: &str, b: &str) -> (r: bool)
    ensures
        r == (a@ == b@),
{
    let n = a.unicode_len();
    if n != b.unicode_len() {
        return false;
    }
    let mut i: usize = 0;
    while i < n
        invariant
            i <= n,
            n == a@.len(),
            n == b@.len(),
            forall|j: int| 0 <= j < i ==> a@[j] == b@[j],
        decreases n - i,
    {
        if a.get_char(i) != b.get_char(i) {
            return false;
        }
        i = i + 1;
    }
    assert(a@ =~= b@);
    true
}

/// `{:02X?}` of a byte list without the brackets: "81, 10, F1".
pub open spec fn hex_list(bytes: Seq<u8>) -> Seq<char>
    decreases bytes.len(),
{
    if bytes.len() == 0 {
        Seq::empty()
    } else if bytes.len() == 1 {
        hex2(bytes[0])
    } else {
        hex_list(bytes.drop_last()) + ", "@ + hex2(bytes.last())
    }
}

/// `{:02X?}` of a byte list: "[81, 10, F1]".
pub open spec fn debug_hex(bytes: Seq<u8>) -> Seq<char> {
    "["@ + hex_list(bytes) + "]"@
}

/// Appends a byte list as `{:02X?}` writes it.
pub fn push_debug_hex(s: &mut String, bytes: &[u8])
    ensures
        final(s)@ == old(s)@ + debug_hex(bytes@),
{
    s.append("[");
    let ghost start = s@;
    let mut i: usize = 0;
    while i < bytes.len()
        invariant
            i <= bytes@.len(),
            start == old(s)@ + "["@,
            s@ == start + hex_list(bytes@.take(i as int)),
        decreases bytes@.len() - i,
    {
        proof {
            assert(bytes@.take(i + 1).drop_last() =~= bytes@.take(i as int));
        }
        if i > 0 {
            s.append(", ");
        }
        push_hex2(s, bytes[i]);
        i = i + 1;
        assert(s@ =~= start + hex_list(bytes@.take(i as int)));
    }
    assert(bytes@.take(bytes@.len() as int) =~= bytes@);
    s.append("]");
    assert(s@ =~= old(s)@ + debug_hex(bytes@));
}

/// Whether a byte offset `b` falls on a character boundary of `s`.
pub open spec fn has_boundary(s: Seq<char>, b: nat) -> bool
    decreases s.len(),
{
    if b == 0 {
        true
    } else if s.len() == 0 {
        false
    } else if char_width(s[0]) > b {
        false
    } else {
        has_boundary(s.subrange(1, s.len() as int), (b - char_width(s[0])) as nat)
    }
}

pub fn boundary_at(v: &Vec<char>, start: usize, b: usize) -> (r: bool)
    requires
        start <= v@.len(),
        b <= 64,
    ensures
        r == has_boundary(v@.subrange(start as int, v@.len() as int), b as nat),
{
    let mut i = start;
    let mut left = b;
    while left > 0 && i < v.len() && char_width_of(v[i]) <= left
        invariant
            start <= i <= v@.len(),
            left <= 64,
            has_boundary(v@.subrange(start as int, v@.len() as int), b as nat) == has_boundary(
                v@.subrange(i as int, v@.len() as int),
                left as nat,
            ),
        decreases v@.len() - i,
    {
        proof {
            let cur = v@.subrange(i as int, v@.len() as int);
            assert(cur.subrange(1, cur.len() as int) =~= v@.subrange(i + 1, v@.len() as int));
        }
        left = left - char_width_of(v[i]);
        i = i + 1;
    }
    left == 0
}

proof fn lemma_byte_len_prefix(s: Seq<char>, k: int)
    requires
        0 <= k <= s.len(),
    ensures
        byte_len(s.take(k)) <= byte_len(s),
    decreases s.len(),
{
    if k < s.len() {
        assert(s.drop_last().take(k) =~= s.take(k));
        lemma_byte_len_prefix(s.drop_last(), k);
    } else {
        assert(s.take(k) =~= s);
    }
}

/// Whether the characters of `v` from `start` on take at least `k` bytes.
pub fn byte_len_at_least(v: &Vec<char>, start: usize, k: u64) -> (r: bool)
    requires
        start <= v@.len(),
        k <= 64,
    ensures
        r == (byte_len(v@.subrange(start as int, v@.len() as int)) >= k),
{
    let ghost full = v@.subrange(start as int, v@.len() as int);
    let mut acc: u64 = 0;
    let mut i = start;
    while i < v.len()
        invariant
            start <= i <= v@.len(),
            full == v@.subrange(start as int, v@.len() as int),
            acc == byte_len(full.take(i - start)),
            acc <= k + 4,
            k <= 64,
        decreases v@.len() - i,
    {
        if acc >= k {
            proof {
                lemma_byte_len_prefix(full, i - start);
            }
            return true;
        }
        proof {
            assert(full.take(i - start + 1).drop_last() =~= full.take(i - start));
        }
        acc = acc + char_width_of(v[i]) as u64;
        i = i + 1;
    }
    assert(full.take(i - start) =~= full);
    acc >= k
}

pub proof fn lemma_ascii_byte_len(s: Seq<char>)
    requires
        all_ascii(s),
    ensures
        byte_len(s) == s.len(),
    decreases s.len(),
{
    if s.len() > 0 {
        assert(all_ascii(s.drop_last()));
        assert(is_ascii_char(s.last()));
        lemma_ascii_byte_len(s.drop_last());
    }
}

pub proof fn lemma_byte_len_split(s: Seq<char>, k: int)
    requires
        0 <= k <= s.len(),
    ensures
        byte_len(s) == byte_len(s.take(k)) + byte_len(s.subrange(k, s.len() as int)),
    decreases s.len(),
{
    if k == s.len() {
        assert(s.take(k) =~= s);
        assert(s.subrange(k, s.len() as int) =~= Seq::<char>::empty());
    } else {
        lemma_byte_len_split(s.drop_last(), k);
        assert(s.drop_last().take(k) =~= s.take(k));
        assert(s.subrange(k, s.len() as int).drop_last() =~= s.drop_last().subrange(k, s.len() - 1));
    }
}

/// Whether `v[start..end]` are all single-byte characters.
pub fn range_all_ascii(v: &Vec<char>, start: usize, end: usize) -> (r: bool)
    requires
        start <= end <= v@.len(),
    ensures
        r == all_ascii(v@.subrange(start as int, end as int)),
{
    let mut i = start;
    while i < end
        invariant
            start <= i <= end,
            end <= v@.len(),
            all_ascii(v@.subrange(start as int, i as int)),
        decreases end - i,
    {
        if char_width_of(v[i]) != 1 {
            proof {
                assert(v@.subrange(start as int, end as int)[i - start] == v@[i as int]);
            }
            return false;
        }
        proof {
            let next = v@.subrange(start as int, i + 1);
            assert forall|j: int| 0 <= j < next.len() implies is_ascii_char(#[trigger] next[j]) by {
                if j < i - start {
                    assert(next[j] == v@.subrange(start as int, i as int)[j]);
                }
            }
        }
        i = i + 1;
    }
    true
}

pub fn copy_chars(v: &Vec<char>, start: usize, end: usize) -> (r: Vec<char>)
    requires
        start <= end <= v@.len(),
    ensures
        r@ == v@.subrange(start as int, end as int),
{
    let mut out: Vec<char> = Vec::new();
    let mut i = start;
    while i < end
        invariant
            start <= i <= end,
            end <= v@.len(),
            out@ =~= v@.subrange(start as int, i as int),
        decreases end - i,
    {
        out.push(v[i]);
        i = i + 1;
    }
    out
}

/// Facts about the characters `hex_digit` produces.
pub proof fn lemma_hex_digit(k: nat)
    requires
        k < 16,
    ensures
        is_hex_char(hex_digit(k)),
        hex_val(hex_digit(k)) == k,
        is_ascii_char(hex_digit(k)),
        char_width(hex_digit(k)) == 1,
        !is_ws(hex_digit(k)),
        hex_digit(k) != '+',
        hex_digit(k) != '>',
        ('0' <= hex_digit(k) && hex_digit(k) <= '9') || ('A' <= hex_digit(k) && hex_digit(k) <= 'F'),
{
}

/// Every character of `s` is an uppercase hex digit.
pub open spec fn all_upper_hex(s: Seq<char>) -> bool {
    forall|i: int| 0 <= i < s.len() ==> (('0' <= #[trigger] s[i] && s[i] <= '9') || ('A' <= s[i]
        && s[i] <= 'F'))
}

pub proof fn lemma_upper_hex_facts(s: Seq<char>)
    requires
        all_upper_hex(s),
    ensures
        all_ascii(s),
        all_hex(s),
        forall|i: int| 0 <= i < s.len() ==> !is_ws(#[trigger] s[i]) && s[i] != '>' && s[i] != '+'
            && char_width(s[i]) == 1,
{
    assert forall|i: int| 0 <= i < s.len() implies is_ascii_char(#[trigger] s[i]) by {}
    assert forall|i: int| 0 <= i < s.len() implies is_hex_char(#[trigger] s[i]) by {}
}

pub proof fn lemma_hex_concat(bytes: Seq<u8>)
    ensures
        hex_concat(bytes).len() == 2 * bytes.len(),
        all_upper_hex(hex_concat(bytes)),
        forall|i: int|
            0 <= i < bytes.len() ==> hex_concat(bytes)[2 * i] == hex_digit((#[trigger] bytes[i] / 16) as nat)
                && hex_concat(bytes)[2 * i + 1] == hex_digit((bytes[i] % 16) as nat),
    decreases bytes.len(),
{
    if bytes.len() > 0 {
        let pre = bytes.drop_last();
        lemma_hex_concat(pre);
        let hc = hex_concat(bytes);
        let last = bytes.last();
        assert(hc == hex_concat(pre) + hex2(last));
        lemma_hex_digit((last / 16) as nat);
        lemma_hex_digit((last % 16) as nat);
        assert forall|i: int| 0 <= i < hc.len() implies (('0' <= #[trigger] hc[i] && hc[i] <= '9') || ('A'
            <= hc[i] && hc[i] <= 'F')) by {
            if i < hex_concat(pre).len() {
                assert(hc[i] == hex_concat(pre)[i]);
            }
        }
        assert forall|i: int| 0 <= i < bytes.len() implies hc[2 * i] == hex_digit(
            (#[trigger] bytes[i] / 16) as nat,
        ) && hc[2 * i + 1] == hex_digit((bytes[i] % 16) as nat) by {
            if i < pre.len() {
                assert(bytes[i] == pre[i]);
                assert(hc[2 * i] == hex_concat(pre)[2 * i]);
                assert(hc[2 * i + 1] == hex_concat(pre)[2 * i + 1]);
            }
        }
    }
}

/// Pairs `i..n` of the hex text of `bytes` decode to `bytes[i..n]`.
pub proof fn lemma_pair_walk_hex(bytes: Seq<u8>, i: nat)
    requires
        i <= bytes.len(),
    ensures
        pair_walk(hex_concat(bytes), i, bytes.len()) == PairWalk::Bytes(
            bytes.subrange(i as int, bytes.len() as int),
        ),
    decreases bytes.len() - i,
{
    let hc = hex_concat(bytes);
    lemma_hex_concat(bytes);
    if i < bytes.len() {
        let b = bytes[i as int];
        let a = hc[(2 * i) as int];
        let c = hc[(2 * i + 1) as int];
        lemma_hex_digit((b / 16) as nat);
        lemma_hex_digit((b % 16) as nat);
        let pair = seq![a, c];
        assert(pair[0] != '+');
        assert(all_hex(pair));
        assert(pair.drop_last() =~= seq![a]);
        assert(seq![a].drop_last() =~= Seq::<char>::empty());
        assert(hex_value(seq![a]) == hex_value(Seq::<char>::empty()) * 16 + hex_val(a));
        assert(hex_value(seq![a]) == hex_val(a));
        assert(pair.last() == c);
        assert(hex_value(pair) == hex_val(a) * 16 + hex_val(c));
        assert((b / 16) as nat * 16 + (b % 16) as nat == b as nat);
        assert(parse_hex(pair) == Some((b as nat)));
        lemma_pair_walk_hex(bytes, i + 1);
        assert(seq![b] + bytes.subrange((i + 1) as int, bytes.len() as int) =~= bytes.subrange(
            i as int,
            bytes.len() as int,
        ));
    } else {
        assert(bytes.subrange(i as int, bytes.len() as int) =~= Seq::<u8>::empty());
    }
}

/// `n`, written with at least `width` digits when it fits in `width` digits,
/// is exactly `width` uppercase digits whose value is `n`.
pub proof fn lemma_hex_min_fixed(n: nat, width: nat)
    requires
        width >= 1,
        n < pow16(width),
    ensures
        hex_min(n, width).len() == width,
        all_upper_hex(hex_min(n, width)),
        hex_value(hex_min(n, width)) == n,
    decreases width,
{
    if width == 1 {
        assert(pow16(1) == 16) by {
            lemma_pow16_values();
        }
        lemma_hex_digit(n);
        assert(hex_min(n, 1) == seq![hex_digit(n)]);
        assert(seq![hex_digit(n)].drop_last() =~= Seq::<char>::empty());
        assert(hex_value(seq![hex_digit(n)]) == hex_value(Seq::<char>::empty()) * 16 + hex_val(hex_digit(n)));
    } else {
        assert(pow16(width) == pow16((width - 1) as nat) * 16);
        assert(n / 16 < pow16((width - 1) as nat));
        lemma_hex_min_fixed(n / 16, (width - 1) as nat);
        lemma_hex_digit(n % 16);
        let h = hex_min(n, width);
        assert(h == hex_min(n / 16, (width - 1) as nat) + seq![hex_digit(n % 16)]);
        assert(h.drop_last() =~= hex_min(n / 16, (width - 1) as nat));
        assert(h.last() == hex_digit(n % 16));
        assert(hex_value(h) == hex_value(h.drop_last()) * 16 + hex_val(h.last()));
        assert((n / 16) * 16 + n % 16 == n) by (nonlinear_arith);
        assert forall|i: int| 0 <= i < h.len() implies (('0' <= #[trigger] h[i] && h[i] <= '9') || ('A' <= h[i]
            && h[i] <= 'F')) by {
            if i < h.len() - 1 {
                assert(h[i] == hex_min(n / 16, (width - 1) as nat)[i]);
            }
        }
    }
}

pub proof fn lemma_pow16_8()
    ensures
        pow16(3) == 0x1000,
        pow16(8) == 0x1_0000_0000,
{
    lemma_pow16_values();
}

/// Whitespace-free, then one trailing whitespace character: trimming drops
/// exactly that character.
pub proof fn lemma_trim_one_trailing(s: Seq<char>, c: char)
    requires
        s.len() > 0,
        forall|i: int| 0 <= i < s.len() ==> !is_ws(#[trigger] s[i]),
        is_ws(c),
    ensures
        spec_trim(s.push(c)) == s,
{
    assert(!is_ws(s.push(c)[0]));
    assert(trim_start(s.push(c)) == s.push(c));
    assert(s.push(c).drop_last() =~= s);
    assert(!is_ws(s.last()));
    assert(trim_end(s) == s);
}

/// Cleaning a whitespace-free, prompt-free sequence leaves it unchanged.
pub proof fn lemma_elm_clean_keeps(s: Seq<char>)
    requires
        forall|i: int| 0 <= i < s.len() ==> !is_ws(#[trigger] s[i]) && s[i] != '>',
    ensures
        elm_clean(s) == s,
    decreases s.len(),
{
    if s.len() > 0 {
        assert forall|i: int| 0 <= i < s.drop_last().len() implies !is_ws(#[trigger] s.drop_last()[i])
            && s.drop_last()[i] != '>' by {
            assert(s.drop_last()[i] == s[i]);
        }
        lemma_elm_clean_keeps(s.drop_last());
        assert(s.drop_last().push(s.last()) =~= s);
    }
}

} // verus!
