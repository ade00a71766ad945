//! Sequential decoder over the bytes of one kernel text file.
//!
//! Every parser in this crate is built from these primitives: a cursor that
//! skips ASCII whitespace, yields raw tokens, parses decimal numerals and
//! advances past delimiters or whole lines.  The specification functions
//! here (`tok_start`, `tok_bytes`, `dec_val`, ...) are the vocabulary in
//! which the parsers' contracts are stated.

use vstd::prelude::*;

use crate::error::ProbeError;

verus! {

/// The bytes treated as token separators: space, tab, line feed, carriage
/// return.
pub open spec fn is_space(b: u8) -> bool {
    b == 32 || b == 9 || b == 10 || b == 13
}

/// An ASCII decimal digit.
pub open spec fn is_digit(b: u8) -> bool {
    48 <= b <= 57
}

/// First index at or after `i` holding a non-space byte, or `s.len()`.
pub open spec fn span_spaces(s: Seq<u8>, i: int) -> int
    decreases s.len() - i when 0 <= i <= s.len()
{
    if i >= s.len() {
        s.len() as int
    } else if is_space(s[i]) {
        span_spaces(s, i + 1)
    } else {
        i
    }
}

/// First index at or after `i` holding a space byte, or `s.len()`.
pub open spec fn span_word(s: Seq<u8>, i: int) -> int
    decreases s.len() - i when 0 <= i <= s.len()
{
    if i >= s.len() {
        s.len() as int
    } else if !is_space(s[i]) {
        span_word(s, i + 1)
    } else {
        i
    }
}

/// Where the next token begins, reading from position `i`.
pub open spec fn tok_start(s: Seq<u8>, i: int) -> int {
    span_spaces(s, i)
}

/// Where the next token ends (one past its last byte).
pub open spec fn tok_end(s: Seq<u8>, i: int) -> int {
    span_word(s, tok_start(s, i))
}

/// Whether a token remains at or after position `i`.
pub open spec fn has_tok(s: Seq<u8>, i: int) -> bool {
    tok_start(s, i) < s.len()
}

/// The bytes of the next token, reading from position `i`.
pub open spec fn tok_bytes(s: Seq<u8>, i: int) -> Seq<u8> {
    s.subrange(tok_start(s, i), tok_end(s, i))
}

/// The value of an unsigned decimal numeral.
pub open spec fn dec_val(s: Seq<u8>) -> nat
    decreases s.len()
{
    if s.len() == 0 {
        0
    } else {
        dec_val(s.drop_last()) * 10 + (s.last() - 48) as nat
    }
}

/// A non-empty, all-digit byte sequence.
pub open spec fn all_digits(s: Seq<u8>) -> bool {
    s.len() >= 1 && forall|k: int| 0 <= k < s.len() ==> is_digit(#[trigger] s[k])
}

pub proof fn lemma_span_spaces(s: Seq<u8>, i: int)
    requires
        0 <= i <= s.len(),
    ensures
        i <= span_spaces(s, i) <= s.len(),
        forall|k: int| i <= k < span_spaces(s, i) ==> is_space(#[trigger] s[k]),
        span_spaces(s, i) < s.len() ==> !is_space(s[span_spaces(s, i)]),
    decreases s.len() - i,
{
    if i < s.len() && is_space(s[i]) {
        lemma_span_spaces(s, i + 1);
    }
}

pub proof fn lemma_span_word(s: Seq<u8>, i: int)
    requires
        0 <= i <= s.len(),
    ensures
        i <= span_word(s, i) <= s.len(),
        forall|k: int| i <= k < span_word(s, i) ==> !is_space(#[trigger] s[k]),
        span_word(s, i) < s.len() ==> is_space(s[span_word(s, i)]),
    decreases s.len() - i,
{
    if i < s.len() && !is_space(s[i]) {
        lemma_span_word(s, i + 1);
    }
}

/// First index at or after `i` holding byte `d`, or `s.len()`.
pub open spec fn span_until(s: Seq<u8>, i: int, d: u8) -> int
    decreases s.len() - i when 0 <= i <= s.len()
{
    if i >= s.len() {
        s.len() as int
    } else if s[i] != d {
        span_until(s, i + 1, d)
    } else {
        i
    }
}

pub proof fn lemma_span_until(s: Seq<u8>, i: int, d: u8)
    requires
        0 <= i <= s.len(),
    ensures
        i <= span_until(s, i, d) <= s.len(),
        forall|k: int| i <= k < span_until(s, i, d) ==> s[k] != d,
        span_until(s, i, d) < s.len() ==> s[span_until(s, i, d)] == d,
    decreases s.len() - i,
{
    if i < s.len() && s[i] != d {
        lemma_span_until(s, i + 1, d);
    }
}

/// The position after skipping the rest of the current line, including its
/// terminating line feed.
pub open spec fn after_line(s: Seq<u8>, i: int) -> int {
    if span_until(s, i, 10) < s.len() {
        span_until(s, i, 10) + 1
    } else {
        s.len() as int
    }
}

/// `a` begins with `p`.
pub open spec fn starts_with(a: Seq<u8>, p: Seq<u8>) -> bool {
    p.len() <= a.len() && forall|k: int| 0 <= k < p.len() ==> a[k] == #[trigger] p[k]
}

/// What parsing a token as an unsigned 64-bit decimal numeral yields.
pub open spec fn spec_parse_u64(t: Seq<u8>) -> Result<u64, ProbeError> {
    if all_digits(t) && dec_val(t) <= u64::MAX {
        Ok(dec_val(t) as u64)
    } else {
        Err(ProbeError::InvalidData)
    }
}

/// A token shaped as a signed decimal numeral: digits with an optional
/// leading minus sign.
pub open spec fn is_signed_numeral(t: Seq<u8>) -> bool {
    if t.len() >= 1 && t[0] == 45 {
        all_digits(t.subrange(1, t.len() as int))
    } else {
        all_digits(t)
    }
}

/// The value of a signed decimal numeral.
pub open spec fn sgn_val(t: Seq<u8>) -> int {
    if t.len() >= 1 && t[0] == 45 {
        -(dec_val(t.subrange(1, t.len() as int)) as int)
    } else {
        dec_val(t) as int
    }
}

/// What reading the next token as an unsigned 64-bit numeral yields.
pub open spec fn spec_next_u64(s: Seq<u8>, i: int) -> Result<u64, ProbeError> {
    if !has_tok(s, i) {
        Err(ProbeError::UnexpectedEof)
    } else {
        spec_parse_u64(tok_bytes(s, i))
    }
}

/// What reading the next token as an unsigned 32-bit numeral yields.
pub open spec fn spec_next_u32(s: Seq<u8>, i: int) -> Result<u32, ProbeError> {
    match spec_next_u64(s, i) {
        Ok(v) => if v <= u32::MAX { Ok(v as u32) } else { Err(ProbeError::InvalidData) },
        Err(e) => Err(e),
    }
}

/// What reading the next token as an unsigned 8-bit numeral yields.
pub open spec fn spec_next_u8(s: Seq<u8>, i: int) -> Result<u8, ProbeError> {
    match spec_next_u64(s, i) {
        Ok(v) => if v <= u8::MAX { Ok(v as u8) } else { Err(ProbeError::InvalidData) },
        Err(e) => Err(e),
    }
}

/// What reading the next token as an unsigned pointer-sized numeral yields.
pub open spec fn spec_next_usize(s: Seq<u8>, i: int) -> Result<usize, ProbeError> {
    match spec_next_u64(s, i) {
        Ok(v) => if v <= usize::MAX as u64 { Ok(v as usize) } else { Err(ProbeError::InvalidData) },
        Err(e) => Err(e),
    }
}

/// What reading the next token as a signed 32-bit numeral yields.
pub open spec fn spec_next_i32(s: Seq<u8>, i: int) -> Result<i32, ProbeError> {
    if !has_tok(s, i) {
        Err(ProbeError::UnexpectedEof)
    } else {
        let t = tok_bytes(s, i);
        if is_signed_numeral(t) && i32::MIN <= sgn_val(t) <= i32::MAX {
            Ok(sgn_val(t) as i32)
        } else {
            Err(ProbeError::InvalidData)
        }
    }
}

/// What reading the next token as a signed 8-bit numeral yields.
pub open spec fn spec_next_i8(s: Seq<u8>, i: int) -> Result<i8, ProbeError> {
    if !has_tok(s, i) {
        Err(ProbeError::UnexpectedEof)
    } else {
        let t = tok_bytes(s, i);
        if is_signed_numeral(t) && i8::MIN <= sgn_val(t) <= i8::MAX {
            Ok(sgn_val(t) as i8)
        } else {
            Err(ProbeError::InvalidData)
        }
    }
}

/// The position after consuming `n` whole tokens, or `None` if fewer than
/// `n` tokens remain.
pub open spec fn spec_skip_toks(s: Seq<u8>, i: int, n: nat) -> Option<int>
    decreases n,
{
    if n == 0 {
        Some(i)
    } else if !has_tok(s, i) {
        None
    } else {
        spec_skip_toks(s, tok_end(s, i), (n - 1) as nat)
    }
}

/// The bytes of a decimal numeral, one step longer.
proof fn lemma_dec_val_step(s: Seq<u8>, i: int)
    requires
        0 <= i < s.len(),
        is_digit(s[i]),
    ensures
        dec_val(s.take(i + 1)) == dec_val(s.take(i)) * 10 + (s[i] - 48),
{
    assert(s.take(i + 1).drop_last() =~= s.take(i));
    assert(s.take(i + 1).last() == s[i]);
    assert(dec_val(s.take(i + 1)) == dec_val(s.take(i)) * 10 + (s[i] - 48) as nat);
}

/// For an all-digit numeral, every prefix is worth no more than the whole.
proof fn lemma_dec_val_prefix_le(s: Seq<u8>, i: int)
    requires
        0 <= i <= s.len(),
        forall|k: int| 0 <= k < s.len() ==> is_digit(#[trigger] s[k]),
    ensures
        dec_val(s.take(i)) <= dec_val(s),
    decreases s.len() - i,
{
    if i < s.len() {
        lemma_dec_val_step(s, i);
        lemma_dec_val_prefix_le(s, i + 1);
        assert(dec_val(s.take(i)) <= dec_val(s.take(i)) * 10 + (s[i] - 48));
    } else {
        assert(s.take(i) =~= s);
    }
}

/// Parse the bytes of `v` from index `from` on as an unsigned 64-bit
/// decimal numeral.
pub fn parse_u64_from(v: &Vec<u8>, from: usize) -> (r: Result<u64, ProbeError>)
    requires
        from <= v@.len(),
    ensures
        r == spec_parse_u64(v@.subrange(from as int, v@.len() as int)),
{
    let ghost sub = v@.subrange(from as int, v@.len() as int);
    let n = v.len();
    if from == n {
        return Err(ProbeError::InvalidData);
    }
    let mut acc: u64 = 0;
    let mut i = from;
    while i < n
        invariant
            from <= i <= n,
            n == v@.len(),
            sub == v@.subrange(from as int, v@.len() as int),
            forall|k: int| 0 <= k < i - from ==> is_digit(#[trigger] sub[k]),
            acc == dec_val(sub.take(i - from)),
        decreases n - i,
    {
        let b = v[i];
        assert(b == sub[i - from]);
        if !digit(b) {
            assert(!all_digits(sub));
            return Err(ProbeError::InvalidData);
        }
        let d = (b - 48) as u64;
        let wide: u128 = acc as u128 * 10 + d as u128;
        proof {
            lemma_dec_val_step(sub, i - from);
        }
        if wide > u64::MAX as u128 {
            proof {
                if all_digits(sub) {
                    lemma_dec_val_prefix_le(sub, i - from + 1);
                }
            }
            return Err(ProbeError::InvalidData);
        }
        acc = wide as u64;
        i = i + 1;
    }
    proof {
        assert(sub.take(n - from) =~= sub);
    }
    Ok(acc)
}

/// Executable test for `is_space`.
pub fn space(b: u8) -> (r: bool)
    ensures
        r == is_space(b),
{
    b == 32 || b == 9 || b == 10 || b == 13
}

/// Executable test for `is_digit`.
pub fn digit(b: u8) -> (r: bool)
    ensures
        r == is_digit(b),
{
    48 <= b && b <= 57
}

/// Consuming a token moves the position strictly forward.
pub proof fn lemma_tok_advance(s: Seq<u8>, i: int)
    requires
        0 <= i <= s.len(),
    ensures
        i <= tok_start(s, i) <= tok_end(s, i) <= s.len(),
        has_tok(s, i) ==> i < tok_end(s, i),
        tok_bytes(s, i).len() == tok_end(s, i) - tok_start(s, i),
        has_tok(s, i) ==> tok_bytes(s, i).len() >= 1,
{
    lemma_span_spaces(s, i);
    lemma_span_word(s, tok_start(s, i));
    if has_tok(s, i) {
        assert(!is_space(s[tok_start(s, i)]));
        assert(span_word(s, tok_start(s, i)) == span_word(s, tok_start(s, i) + 1));
        lemma_span_word(s, tok_start(s, i) + 1);
    }
}

/// Skipping tokens never moves the position backwards.
pub proof fn lemma_skip_toks_ge(s: Seq<u8>, i: int, n: nat)
    requires
        0 <= i <= s.len(),
    ensures
        match spec_skip_toks(s, i, n) {
            Some(j) => i <= j <= s.len() && (n >= 1 ==> i < j),
            None => true,
        },
    decreases n,
{
    if n >= 1 && has_tok(s, i) {
        lemma_tok_advance(s, i);
        lemma_skip_toks_ge(s, tok_end(s, i), (n - 1) as nat);
    }
}

/// The position right after the first token, scanning line by line, whose
/// bytes begin with `label`; lines whose first token does not match are
/// dropped whole.  `None` when the input runs out first.
pub open spec fn spec_scan_label(s: Seq<u8>, i: int, label: Seq<u8>) -> Option<int>
    decreases s.len() - i when 0 <= i <= s.len() via spec_scan_label_decreases
{
    if !has_tok(s, i) {
        None
    } else if starts_with(tok_bytes(s, i), label) {
        Some(tok_end(s, i))
    } else if tok_end(s, i) == s.len() {
        None
    } else {
        spec_scan_label(s, after_line(s, tok_end(s, i)), label)
    }
}

#[via_fn]
proof fn spec_scan_label_decreases(s: Seq<u8>, i: int, label: Seq<u8>) {
    lemma_tok_advance(s, i);
    lemma_span_until(s, tok_end(s, i), 10);
}

/// A found label lies within the input.
pub proof fn lemma_scan_label_bounds(s: Seq<u8>, i: int, label: Seq<u8>)
    requires
        0 <= i <= s.len(),
    ensures
        match spec_scan_label(s, i, label) {
            Some(j) => i <= j <= s.len(),
            None => true,
        },
    decreases s.len() - i,
{
    if has_tok(s, i) {
        lemma_tok_advance(s, i);
        lemma_span_until(s, tok_end(s, i), 10);
        if !starts_with(tok_bytes(s, i), label) && tok_end(s, i) < s.len() {
            lemma_scan_label_bounds(s, after_line(s, tok_end(s, i)), label);
        }
    }
}

/// Advance to just past the first token that begins with `label`, dropping
/// non-matching lines; running out of input is an error.
pub fn scan_to_label(cur: &mut Cursor, label: &[u8]) -> (r: Result<(), ProbeError>)
    requires
        old(cur).wf(),
    ensures
        final(cur).wf(),
        final(cur).bytes() == old(cur).bytes(),
        match spec_scan_label(old(cur).bytes(), old(cur).at(), label@) {
            Some(j) => r is Ok && final(cur).at() == j,
            None => r == Err::<(), ProbeError>(ProbeError::UnexpectedEof),
        },
{
    loop
        invariant
            cur.wf(),
            cur.bytes() == old(cur).bytes(),
            spec_scan_label(old(cur).bytes(), old(cur).at(), label@) == spec_scan_label(
                old(cur).bytes(),
                cur.at(),
                label@,
            ),
        decreases cur.bytes().len() - cur.at(),
    {
        let ghost s = cur.bytes();
        let ghost p = cur.at();
        proof {
            lemma_tok_advance(s, p);
            lemma_span_until(s, tok_end(s, p), 10);
        }
        match cur.next_raw() {
            None => {
                return Err(ProbeError::UnexpectedEof);
            },
            Some(l) => {
                if tok_starts_with(&l, label) {
                    return Ok(());
                }
                if !cur.skip_line() {
                    return Err(ProbeError::UnexpectedEof);
                }
            },
        }
    }
}

/// Parse a whole byte vector as a signed 32-bit decimal numeral.
pub open spec fn spec_parse_i32(t: Seq<u8>) -> Result<i32, ProbeError> {
    if is_signed_numeral(t) && i32::MIN <= sgn_val(t) <= i32::MAX {
        Ok(sgn_val(t) as i32)
    } else {
        Err(ProbeError::InvalidData)
    }
}

/// Parse a whole byte vector as a signed 8-bit decimal numeral.
pub open spec fn spec_parse_i8(t: Seq<u8>) -> Result<i8, ProbeError> {
    if is_signed_numeral(t) && i8::MIN <= sgn_val(t) <= i8::MAX {
        Ok(sgn_val(t) as i8)
    } else {
        Err(ProbeError::InvalidData)
    }
}

pub fn parse_i32_bytes(v: &Vec<u8>) -> (r: Result<i32, ProbeError>)
    ensures
        r == spec_parse_i32(v@),
{
    proof {
        assert(v@.subrange(0, v@.len() as int) =~= v@);
    }
    if v.len() >= 1 && v[0] == 45 {
        match parse_u64_from(v, 1) {
            Ok(d) => {
                if d <= 2147483648u64 {
                    let m: i64 = -(d as i64);
                    Ok(m as i32)
                } else {
                    Err(ProbeError::InvalidData)
                }
            },
            Err(e) => Err(e),
        }
    } else {
        match parse_u64_from(v, 0) {
            Ok(d) => {
                if d <= i32::MAX as u64 {
                    Ok(d as i32)
                } else {
                    Err(ProbeError::InvalidData)
                }
            },
            Err(e) => Err(e),
        }
    }
}

pub fn parse_i8_bytes(v: &Vec<u8>) -> (r: Result<i8, ProbeError>)
    ensures
        r == spec_parse_i8(v@),
{
    proof {
        assert(v@.subrange(0, v@.len() as int) =~= v@);
    }
    if v.len() >= 1 && v[0] == 45 {
        match parse_u64_from(v, 1) {
            Ok(d) => {
                if d <= 128u64 {
                    let m: i16 = -(d as i16);
                    Ok(m as i8)
                } else {
                    Err(ProbeError::InvalidData)
                }
            },
            Err(e) => Err(e),
        }
    } else {
        match parse_u64_from(v, 0) {
            Ok(d) => {
                if d <= i8::MAX as u64 {
                    Ok(d as i8)
                } else {
                    Err(ProbeError::InvalidData)
                }
            },
            Err(e) => Err(e),
        }
    }
}

/// Ten to the `n`th power.
pub open spec fn pow10(n: nat) -> nat
    decreases n,
{
    if n == 0 {
        1
    } else {
        10 * pow10((n - 1) as nat)
    }
}

/// The fractional digits scaled to `n` decimal places: extra digits are
/// cut off, missing ones count as zeros.
pub open spec fn frac_scaled(fp: Seq<u8>, n: nat) -> nat {
    if fp.len() >= n {
        dec_val(fp.take(n as int))
    } else {
        dec_val(fp) * pow10((n - fp.len()) as nat)
    }
}

/// The value of a non-negative decimal numeral with an optional fraction
/// (`123`, `123.`, `123.456`), scaled by ten to the `n` so that `n`
/// fractional digits are kept exactly; further digits are cut off.
pub open spec fn spec_fixed_point(t: Seq<u8>, n: nat) -> Result<u64, ProbeError> {
    let d = span_until(t, 0, 46);
    if d == t.len() {
        if all_digits(t) && dec_val(t) * pow10(n) <= u64::MAX {
            Ok((dec_val(t) * pow10(n)) as u64)
        } else {
            Err(ProbeError::InvalidData)
        }
    } else {
        let ip = t.subrange(0, d);
        let fp = t.subrange(d + 1, t.len() as int);
        if all_digits(ip) && (fp.len() == 0 || all_digits(fp)) {
            let v = dec_val(ip) * pow10(n) + frac_scaled(fp, n);
            if v <= u64::MAX {
                Ok(v as u64)
            } else {
                Err(ProbeError::InvalidData)
            }
        } else {
            Err(ProbeError::InvalidData)
        }
    }
}

/// Parse the bytes of `v` in `[from, to)` as an unsigned 64-bit decimal
/// numeral.
pub fn parse_u64_range(v: &Vec<u8>, from: usize, to: usize) -> (r: Result<u64, ProbeError>)
    requires
        from <= to <= v@.len(),
    ensures
        r == spec_parse_u64(v@.subrange(from as int, to as int)),
{
    let ghost sub = v@.subrange(from as int, to as int);
    if from == to {
        return Err(ProbeError::InvalidData);
    }
    let mut acc: u64 = 0;
    let mut i = from;
    while i < to
        invariant
            from <= i <= to <= v@.len(),
            sub == v@.subrange(from as int, to as int),
            forall|k: int| 0 <= k < i - from ==> is_digit(#[trigger] sub[k]),
            acc == dec_val(sub.take(i - from)),
        decreases to - i,
    {
        let b = v[i];
        assert(b == sub[i - from]);
        if !digit(b) {
            assert(!all_digits(sub));
            return Err(ProbeError::InvalidData);
        }
        let d = (b - 48) as u64;
        let wide: u128 = acc as u128 * 10 + d as u128;
        proof {
            lemma_dec_val_step(sub, i - from);
        }
        if wide > u64::MAX as u128 {
            proof {
                if all_digits(sub) {
                    lemma_dec_val_prefix_le(sub, i - from + 1);
                }
            }
            return Err(ProbeError::InvalidData);
        }
        acc = wide as u64;
        i = i + 1;
    }
    proof {
        assert(sub.take(to - from) =~= sub);
    }
    Ok(acc)
}

/// Ten to the `n`th power, executable for small `n`.
pub fn pow10_small(n: usize) -> (r: u64)
    requires
        n <= 3,
    ensures
        r == pow10(n as nat),
        1 <= r <= 1000,
{
    proof {
        assert(pow10(0) == 1);
        assert(pow10(1) == 10);
        assert(pow10(2) == 100);
        assert(pow10(3) == 1000);
    }
    if n == 0 {
        1
    } else if n == 1 {
        10
    } else if n == 2 {
        100
    } else {
        1000
    }
}

/// Parse the bytes of `v` as a decimal numeral with an optional fraction,
/// scaled to `n` fractional digits.
pub fn parse_fixed_point(v: &Vec<u8>, n: usize) -> (r: Result<u64, ProbeError>)
    requires
        n <= 3,
    ensures
        r == spec_fixed_point(v@, n as nat),
{
    let ghost t = v@;
    let vlen: usize = v.len();
    let mut d: usize = 0;
    proof {
        lemma_span_until(t, 0, 46);
        assert(pow10(0) == 1);
        assert(pow10(1) == 10);
        assert(pow10(2) == 100);
        assert(pow10(3) == 1000);
    }
    while d < vlen && v[d] != 46
        invariant
            0 <= d <= vlen,
            vlen == v@.len(),
            v@ == t,
            span_until(t, 0, 46) == span_until(t, d as int, 46),
            d <= span_until(t, d as int, 46),
        decreases vlen - d,
    {
        d = d + 1;
        proof {
            lemma_span_until(t, d as int, 46);
        }
    }
    proof {
        assert(d == span_until(t, 0, 46));
    }
    let scale = pow10_small(n);
    if d == vlen {
        match parse_u64_from(v, 0) {
            Err(e) => {
                proof {
                    assert(v@.subrange(0, v@.len() as int) =~= v@);
                    if all_digits(t) {
                        assert(dec_val(t) > u64::MAX);
                        assert(dec_val(t) * pow10(n as nat) >= dec_val(t)) by (nonlinear_arith)
                            requires
                                pow10(n as nat) >= 1,
                        ;
                    }
                }
                Err(e)
            },
            Ok(ip) => {
                proof {
                    assert(v@.subrange(0, v@.len() as int) =~= v@);
                    assert(ip as int * scale as int <= 0xFFFF_FFFF_FFFF_FFFFu64 * 1000)
                        by (nonlinear_arith)
                        requires
                            0 <= ip <= 0xFFFF_FFFF_FFFF_FFFFu64 && 0 <= scale <= 1000,
                    ;
                }
                let wide: u128 = ip as u128 * scale as u128;
                if wide > u64::MAX as u128 {
                    Err(ProbeError::InvalidData)
                } else {
                    Ok(wide as u64)
                }
            },
        }
    } else {
        let ghost ip_b = t.subrange(0, d as int);
        let ghost fp_b = t.subrange(d as int + 1, t.len() as int);
        let flen = vlen - d - 1;
        // every fractional digit must be a digit, cut off or not
        let mut k: usize = 0;
        while k < flen
            invariant
                v@ == t,
                vlen == v@.len(),
                0 <= d < vlen,
                d == span_until(t, 0, 46),
                flen == vlen - d - 1,
                fp_b == t.subrange(d as int + 1, t.len() as int),
                0 <= k <= flen,
                forall|j: int| 0 <= j < k ==> is_digit(#[trigger] fp_b[j]),
            decreases flen - k,
        {
            if !digit(v[d + 1 + k]) {
                proof {
                    assert(fp_b[k as int] == t[d + 1 + k]);
                    assert(!all_digits(fp_b));
                }
                return Err(ProbeError::InvalidData);
            }
            k = k + 1;
        }
        // the fraction scaled to n digits
        let take = if flen < n {
            flen
        } else {
            n
        };
        let mut f: u64 = 0;
        let mut k: usize = 0;
        while k < take
            invariant
                v@ == t,
                vlen == v@.len(),
                0 <= d < vlen,
                flen == vlen - d - 1,
                fp_b == t.subrange(d as int + 1, t.len() as int),
                take <= flen,
                take <= n <= 3,
                0 <= k <= take,
                forall|j: int| 0 <= j < flen ==> is_digit(#[trigger] fp_b[j]),
                f == dec_val(fp_b.take(k as int)),
                f < pow10(k as nat),
            decreases take - k,
        {
            let b = v[d + 1 + k];
            proof {
                assert(pow10(0) == 1);
                assert(pow10(1) == 10);
                assert(pow10(2) == 100);
                assert(pow10(3) == 1000);
                assert(fp_b[k as int] == t[d + 1 + k]);
                lemma_dec_val_step(fp_b, k as int);
                assert(pow10((k + 1) as nat) == 10 * pow10(k as nat));
            }
            f = f * 10 + ((b - 48) as u64);
            k = k + 1;
        }
        let mut pad: usize = take;
        proof {
            assert(pow10(0) == 1);
            assert(dec_val(fp_b.take(take as int)) * pow10(0) == dec_val(
                fp_b.take(take as int),
            ));
        }
        while pad < n
            invariant
                take <= pad <= n <= 3,
                take <= flen,
                fp_b == t.subrange(d as int + 1, t.len() as int),
                flen == fp_b.len(),
                f == dec_val(fp_b.take(take as int)) * pow10((pad - take) as nat),
                f < pow10(pad as nat),
            decreases n - pad,
        {
            proof {
                assert(pow10(0) == 1);
                assert(pow10(1) == 10);
                assert(pow10(2) == 100);
                assert(pow10(3) == 1000);
                assert(pow10((pad + 1 - take) as nat) == 10 * pow10((pad - take) as nat));
                assert(pow10((pad + 1) as nat) == 10 * pow10(pad as nat));
                let dv = dec_val(fp_b.take(take as int)) as int;
                let p = pow10((pad - take) as nat) as int;
                assert(dv * (10 * p) == (dv * p) * 10) by (nonlinear_arith);
            }
            f = f * 10;
            pad = pad + 1;
        }
        proof {
            assert(pow10(0) == 1);
            if flen >= n {
                assert(take == n);
                assert(f == frac_scaled(fp_b, n as nat));
            } else {
                assert(take == flen);
                assert(fp_b.take(flen as int) =~= fp_b);
                assert(f == frac_scaled(fp_b, n as nat));
            }
        }
        match parse_u64_range(v, 0, d) {
            Err(e) => {
                proof {
                    if all_digits(ip_b) {
                        assert(dec_val(ip_b) > u64::MAX);
                        assert(dec_val(ip_b) * pow10(n as nat) >= dec_val(ip_b)) by (
                        nonlinear_arith)
                            requires
                                pow10(n as nat) >= 1,
                        ;
                    }
                }
                Err(e)
            },
            Ok(ip) => {
                proof {
                    assert(ip as int * scale as int <= 0xFFFF_FFFF_FFFF_FFFFu64 * 1000)
                        by (nonlinear_arith)
                        requires
                            0 <= ip <= 0xFFFF_FFFF_FFFF_FFFFu64 && 0 <= scale <= 1000,
                    ;
                }
                let wide: u128 = ip as u128 * scale as u128 + f as u128;
                if wide > u64::MAX as u128 {
                    Err(ProbeError::InvalidData)
                } else {
                    Ok(wide as u64)
                }
            },
        }
    }
}

/// Whether the bytes of `v` begin with `p`.
pub fn tok_starts_with(v: &Vec<u8>, p: &[u8]) -> (r: bool)
    ensures
        r == starts_with(v@, p@),
{
    if p.len() > v.len() {
        return false;
    }
    let mut k: usize = 0;
    while k < p.len()
        invariant
            0 <= k <= p@.len() <= v@.len(),
            forall|j: int| 0 <= j < k ==> v@[j] == #[trigger] p@[j],
        decreases p@.len() - k,
    {
        if v[k] != p[k] {
            return false;
        }
        k = k + 1;
    }
    true
}

/// Whether the bytes of `v` are exactly `p`.
pub fn bytes_eq(v: &Vec<u8>, p: &[u8]) -> (r: bool)
    ensures
        r == (v@ == p@),
{
    if v.len() != p.len() {
        return false;
    }
    let mut k: usize = 0;
    while k < p.len()
        invariant
            0 <= k <= p@.len(),
            v@.len() == p@.len(),
            forall|j: int| 0 <= j < k ==> v@[j] == #[trigger] p@[j],
        decreases p@.len() - k,
    {
        if v[k] != p[k] {
            return false;
        }
        k = k + 1;
    }
    proof {
        assert(v@ =~= p@);
    }
    true
}

/// Whether the bytes of `v` end with byte `b`.
pub fn last_is(v: &Vec<u8>, b: u8) -> (r: bool)
    ensures
        r == (v@.len() >= 1 && v@.last() == b),
{
    v.len() >= 1 && v[v.len() - 1] == b
}

/// A cursor over the contents of one file, advancing left to right.
pub struct Cursor {
    pub data: Vec<u8>,
    pub pos: usize,
}

impl Cursor {
    /// The whole input.
    pub open spec fn bytes(&self) -> Seq<u8> {
        self.data@
    }

    /// The current position.
    pub open spec fn at(&self) -> int {
        self.pos as int
    }

    /// The position never runs past the end of the input.
    pub open spec fn wf(&self) -> bool {
        self.pos <= self.data.len()
    }

    pub fn new(data: Vec<u8>) -> (c: Cursor)
        ensures
            c.wf(),
            c.bytes() == data@,
            c.at() == 0,
    {
        Cursor { data, pos: 0 }
    }

    /// Advance past whitespace.
    pub fn skip_spaces(&mut self)
        requires
            old(self).wf(),
        ensures
            final(self).wf(),
            final(self).bytes() == old(self).bytes(),
            final(self).at() == span_spaces(old(self).bytes(), old(self).at()),
    {
        while self.pos < self.data.len() && space(self.data[self.pos])
            invariant
                self.wf(),
                self.bytes() == old(self).bytes(),
                span_spaces(self.bytes(), old(self).at()) == span_spaces(self.bytes(), self.at()),
            decreases self.data.len() - self.pos,
        {
            self.pos = self.pos + 1;
        }
    }

    /// Read the next whitespace-delimited token, or report that none is
    /// left.  At end of input the cursor rests on `bytes().len()`.
    pub fn next_raw(&mut self) -> (r: Option<Vec<u8>>)
        requires
            old(self).wf(),
        ensures
            final(self).wf(),
            final(self).bytes() == old(self).bytes(),
            has_tok(old(self).bytes(), old(self).at()) ==> (
                r is Some
                && r->0@ == tok_bytes(old(self).bytes(), old(self).at())
                && final(self).at() == tok_end(old(self).bytes(), old(self).at())
            ),
            !has_tok(old(self).bytes(), old(self).at()) ==> (
                r is None && final(self).at() == old(self).bytes().len()
            ),
    {
        let ghost s = self.data@;
        let ghost i0 = self.pos as int;
        self.skip_spaces();
        proof {
            lemma_span_spaces(s, i0);
        }
        if self.pos == self.data.len() {
            return None;
        }
        let start = self.pos;
        let mut out: Vec<u8> = Vec::new();
        while self.pos < self.data.len() && !space(self.data[self.pos])
            invariant
                self.wf(),
                self.bytes() == s,
                start as int == tok_start(s, i0),
                start <= self.pos,
                span_word(s, start as int) == span_word(s, self.at()),
                out@ == s.subrange(start as int, self.at()),
            decreases self.data.len() - self.pos,
        {
            let b = self.data[self.pos];
            out.push(b);
            self.pos = self.pos + 1;
            proof {
                assert(out@ =~= s.subrange(start as int, self.at()));
            }
        }
        Some(out)
    }

    /// Read the next token as an unsigned 64-bit decimal numeral.
    pub fn next_u64(&mut self) -> (r: Result<u64, ProbeError>)
        requires
            old(self).wf(),
        ensures
            final(self).wf(),
            final(self).bytes() == old(self).bytes(),
            r == spec_next_u64(old(self).bytes(), old(self).at()),
            final(self).at() == tok_end(old(self).bytes(), old(self).at()),
    {
        let ghost s = self.data@;
        let ghost i0 = self.pos as int;
        proof {
            lemma_span_spaces(s, i0);
            lemma_span_word(s, tok_start(s, i0));
        }
        match self.next_raw() {
            None => Err(ProbeError::UnexpectedEof),
            Some(v) => {
                proof {
                    assert(v@.subrange(0, v@.len() as int) =~= v@);
                }
                parse_u64_from(&v, 0)
            },
        }
    }

    /// Read the next token as an unsigned 32-bit decimal numeral.
    pub fn next_u32(&mut self) -> (r: Result<u32, ProbeError>)
        requires
            old(self).wf(),
        ensures
            final(self).wf(),
            final(self).bytes() == old(self).bytes(),
            r == spec_next_u32(old(self).bytes(), old(self).at()),
            final(self).at() == tok_end(old(self).bytes(), old(self).at()),
    {
        match self.next_u64() {
            Ok(v) => {
                if v <= u32::MAX as u64 {
                    Ok(v as u32)
                } else {
                    Err(ProbeError::InvalidData)
                }
            },
            Err(e) => Err(e),
        }
    }

    /// Read the next token as an unsigned 8-bit decimal numeral.
    pub fn next_u8(&mut self) -> (r: Result<u8, ProbeError>)
        requires
            old(self).wf(),
        ensures
            final(self).wf(),
            final(self).bytes() == old(self).bytes(),
            r == spec_next_u8(old(self).bytes(), old(self).at()),
            final(self).at() == tok_end(old(self).bytes(), old(self).at()),
    {
        match self.next_u64() {
            Ok(v) => {
                if v <= u8::MAX as u64 {
                    Ok(v as u8)
                } else {
                    Err(ProbeError::InvalidData)
                }
            },
            Err(e) => Err(e),
        }
    }

    /// Read the next token as an unsigned pointer-sized decimal numeral.
    pub fn next_usize(&mut self) -> (r: Result<usize, ProbeError>)
        requires
            old(self).wf(),
        ensures
            final(self).wf(),
            final(self).bytes() == old(self).bytes(),
            r == spec_next_usize(old(self).bytes(), old(self).at()),
            final(self).at() == tok_end(old(self).bytes(), old(self).at()),
    {
        match self.next_u64() {
            Ok(v) => {
                if v <= usize::MAX as u64 {
                    Ok(v as usize)
                } else {
                    Err(ProbeError::InvalidData)
                }
            },
            Err(e) => Err(e),
        }
    }

    /// Read the next token as a signed 32-bit decimal numeral.
    pub fn next_i32(&mut self) -> (r: Result<i32, ProbeError>)
        requires
            old(self).wf(),
        ensures
            final(self).wf(),
            final(self).bytes() == old(self).bytes(),
            r == spec_next_i32(old(self).bytes(), old(self).at()),
            final(self).at() == tok_end(old(self).bytes(), old(self).at()),
    {
        let ghost s = self.data@;
        let ghost i0 = self.pos as int;
        proof {
            lemma_span_spaces(s, i0);
            lemma_span_word(s, tok_start(s, i0));
        }
        match self.next_raw() {
            None => Err(ProbeError::UnexpectedEof),
            Some(v) => parse_i32_bytes(&v),
        }
    }

    /// Read the next token as a signed 8-bit decimal numeral.
    pub fn next_i8(&mut self) -> (r: Result<i8, ProbeError>)
        requires
            old(self).wf(),
        ensures
            final(self).wf(),
            final(self).bytes() == old(self).bytes(),
            r == spec_next_i8(old(self).bytes(), old(self).at()),
            final(self).at() == tok_end(old(self).bytes(), old(self).at()),
    {
        let ghost s = self.data@;
        let ghost i0 = self.pos as int;
        proof {
            lemma_span_spaces(s, i0);
            lemma_span_word(s, tok_start(s, i0));
        }
        match self.next_raw() {
            None => Err(ProbeError::UnexpectedEof),
            Some(v) => parse_i8_bytes(&v),
        }
    }

    /// Consume `n` whole tokens; fewer than `n` left is an error.
    pub fn skip_toks(&mut self, n: usize) -> (r: Result<(), ProbeError>)
        requires
            old(self).wf(),
        ensures
            final(self).wf(),
            final(self).bytes() == old(self).bytes(),
            match spec_skip_toks(old(self).bytes(), old(self).at(), n as nat) {
                Some(j) => r is Ok && final(self).at() == j,
                None => r == Err::<(), ProbeError>(ProbeError::UnexpectedEof),
            },
    {
        let mut k: usize = 0;
        while k < n
            invariant
                self.wf(),
                self.bytes() == old(self).bytes(),
                0 <= k <= n,
                spec_skip_toks(old(self).bytes(), old(self).at(), n as nat) == spec_skip_toks(
                    old(self).bytes(),
                    self.at(),
                    (n - k) as nat,
                ),
            decreases n - k,
        {
            match self.next_raw() {
                None => {
                    return Err(ProbeError::UnexpectedEof);
                },
                Some(_) => {},
            }
            k = k + 1;
        }
        Ok(())
    }

    /// Skip the rest of the current line, consuming its line feed.  At end
    /// of input there is no line left and `false` comes back.
    pub fn skip_line(&mut self) -> (r: bool)
        requires
            old(self).wf(),
        ensures
            final(self).wf(),
            final(self).bytes() == old(self).bytes(),
            r == (old(self).at() < old(self).bytes().len()),
            r ==> final(self).at() == after_line(old(self).bytes(), old(self).at()),
            !r ==> final(self).at() == old(self).at(),
    {
        if self.pos == self.data.len() {
            return false;
        }
        proof {
            lemma_span_until(self.data@, self.pos as int, 10);
        }
        while self.pos < self.data.len() && self.data[self.pos] != 10
            invariant
                self.wf(),
                self.bytes() == old(self).bytes(),
                span_until(self.bytes(), old(self).at(), 10) == span_until(
                    self.bytes(),
                    self.at(),
                    10,
                ),
                self.at() <= span_until(self.bytes(), self.at(), 10),
            decreases self.data.len() - self.pos,
        {
            self.pos = self.pos + 1;
            proof {
                lemma_span_until(self.data@, self.pos as int, 10);
            }
        }
        if self.pos < self.data.len() {
            self.pos = self.pos + 1;
        }
        true
    }

    /// Read the rest of the current line, consuming its line feed.  At end
    /// of input there is no line left.
    pub fn next_line_raw(&mut self) -> (r: Option<Vec<u8>>)
        requires
            old(self).wf(),
        ensures
            final(self).wf(),
            final(self).bytes() == old(self).bytes(),
            r is Some == (old(self).at() < old(self).bytes().len()),
            r matches Some(v) ==> (
                v@ == old(self).bytes().subrange(
                    old(self).at(),
                    span_until(old(self).bytes(), old(self).at(), 10),
                )
                && final(self).at() == after_line(old(self).bytes(), old(self).at())
            ),
            r is None ==> final(self).at() == old(self).at(),
    {
        let ghost s = self.data@;
        let ghost i0 = self.pos as int;
        if self.pos == self.data.len() {
            return None;
        }
        let mut out: Vec<u8> = Vec::new();
        proof {
            lemma_span_until(s, i0, 10);
        }
        while self.pos < self.data.len() && self.data[self.pos] != 10
            invariant
                self.wf(),
                self.bytes() == s,
                0 <= i0 <= self.at(),
                span_until(s, i0, 10) == span_until(s, self.at(), 10),
                self.at() <= span_until(s, self.at(), 10),
                out@ == s.subrange(i0, self.at()),
            decreases self.data.len() - self.pos,
        {
            let b = self.data[self.pos];
            out.push(b);
            self.pos = self.pos + 1;
            proof {
                lemma_span_until(s, self.pos as int, 10);
                assert(out@ =~= s.subrange(i0, self.at()));
            }
        }
        if self.pos < self.data.len() {
            self.pos = self.pos + 1;
        }
        Some(out)
    }

    /// Skip exactly `n` bytes; fewer than `n` left is an error.
    pub fn skip_bytes(&mut self, n: usize) -> (r: Result<(), ProbeError>)
        requires
            old(self).wf(),
        ensures
            final(self).wf(),
            final(self).bytes() == old(self).bytes(),
            old(self).at() + n <= old(self).bytes().len() ==> (
                r is Ok && final(self).at() == old(self).at() + n
            ),
            old(self).at() + n > old(self).bytes().len() ==> (
                r == Err::<(), ProbeError>(ProbeError::UnexpectedEof)
                && final(self).at() == old(self).bytes().len()
            ),
    {
        if n <= self.data.len() - self.pos {
            self.pos = self.pos + n;
            Ok(())
        } else {
            self.pos = self.data.len();
            Err(ProbeError::UnexpectedEof)
        }
    }

    /// Skip whitespace, then read the bytes up to the next occurrence of
    /// `d`, consuming the delimiter.  No delimiter before end of input is
    /// reported as `None`.
    pub fn next_until_byte(&mut self, d: u8) -> (r: Option<Vec<u8>>)
        requires
            old(self).wf(),
        ensures
            final(self).wf(),
            final(self).bytes() == old(self).bytes(),
            ({
                let s = old(self).bytes();
                let start = span_spaces(s, old(self).at());
                let j = span_until(s, start, d);
                if j < s.len() {
                    r matches Some(v) && v@ == s.subrange(start, j) && final(self).at() == j + 1
                } else {
                    r is None && final(self).at() == s.len()
                }
            }),
    {
        let ghost s = self.data@;
        let ghost i0 = self.pos as int;
        self.skip_spaces();
        let ghost start = self.pos as int;
        let mut out: Vec<u8> = Vec::new();
        proof {
            lemma_span_spaces(s, i0);
            lemma_span_until(s, start, d);
        }
        while self.pos < self.data.len() && self.data[self.pos] != d
            invariant
                self.wf(),
                self.bytes() == s,
                0 <= start <= self.at(),
                span_until(s, start, d) == span_until(s, self.at(), d),
                self.at() <= span_until(s, self.at(), d),
                out@ == s.subrange(start, self.at()),
            decreases self.data.len() - self.pos,
        {
            let b = self.data[self.pos];
            out.push(b);
            self.pos = self.pos + 1;
            proof {
                lemma_span_until(s, self.pos as int, d);
                assert(out@ =~= s.subrange(start, self.at()));
            }
        }
        if self.pos < self.data.len() {
            self.pos = self.pos + 1;
            Some(out)
        } else {
            None
        }
    }

    /// Read the bytes up to `d` as an unsigned 32-bit decimal numeral.
    pub fn next_u32_until(&mut self, d: u8) -> (r: Result<u32, ProbeError>)
        requires
            old(self).wf(),
        ensures
            final(self).wf(),
            final(self).bytes() == old(self).bytes(),
            ({
                let s = old(self).bytes();
                let start = span_spaces(s, old(self).at());
                let j = span_until(s, start, d);
                if j < s.len() {
                    r == (match spec_parse_u64(s.subrange(start, j)) {
                        Ok(v) => if v <= u32::MAX {
                            Ok(v as u32)
                        } else {
                            Err::<u32, ProbeError>(ProbeError::InvalidData)
                        },
                        Err(e) => Err::<u32, ProbeError>(e),
                    }) && final(self).at() == j + 1
                } else {
                    r == Err::<u32, ProbeError>(ProbeError::UnexpectedEof)
                        && final(self).at() == s.len()
                }
            }),
    {
        match self.next_until_byte(d) {
            None => Err(ProbeError::UnexpectedEof),
            Some(v) => {
                proof {
                    assert(v@.subrange(0, v@.len() as int) =~= v@);
                }
                match parse_u64_from(&v, 0) {
                    Ok(x) => {
                        if x <= u32::MAX as u64 {
                            Ok(x as u32)
                        } else {
                            Err(ProbeError::InvalidData)
                        }
                    },
                    Err(e) => Err(e),
                }
            },
        }
    }

    /// Read the bytes up to `d` as a signed 32-bit decimal numeral.
    pub fn next_i32_until(&mut self, d: u8) -> (r: Result<i32, ProbeError>)
        requires
            old(self).wf(),
        ensures
            final(self).wf(),
            final(self).bytes() == old(self).bytes(),
            ({
                let s = old(self).bytes();
                let start = span_spaces(s, old(self).at());
                let j = span_until(s, start, d);
                if j < s.len() {
                    r == spec_parse_i32(s.subrange(start, j)) && final(self).at() == j + 1
                } else {
                    r == Err::<i32, ProbeError>(ProbeError::UnexpectedEof)
                        && final(self).at() == s.len()
                }
            }),
    {
        match self.next_until_byte(d) {
            None => Err(ProbeError::UnexpectedEof),
            Some(v) => parse_i32_bytes(&v),
        }
    }

    /// Whether the cursor has reached the end of the input.
    pub fn at_end(&self) -> (r: bool)
        requires
            self.wf(),
        ensures
            r == (self.at() == self.bytes().len()),
    {
        self.pos == self.data.len()
    }
}

} // verus!
