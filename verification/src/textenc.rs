//! Verified building blocks for the trace's canonical text form: decimal
//! rendering of 64-bit numbers, string escaping, and the scanners that invert
//! them. Everything here is specified over `Seq<char>` so that the trace
//! module can prove that loading a saved trace gives back the trace.

use vstd::prelude::*;
use vstd::string::*;

verus! {

// ---------------------------------------------------------------------------
// Decimal digits
// ---------------------------------------------------------------------------

/// The character for one decimal digit.
pub open spec fn digit_char(d: int) -> char {
    if d == 0 {
        '0'
    } else if d == 1 {
        '1'
    } else if d == 2 {
        '2'
    } else if d == 3 {
        '3'
    } else if d == 4 {
        '4'
    } else if d == 5 {
        '5'
    } else if d == 6 {
        '6'
    } else if d == 7 {
        '7'
    } else if d == 8 {
        '8'
    } else {
        '9'
    }
}

pub open spec fn is_digit(c: char) -> bool {
    c == '0' || c == '1' || c == '2' || c == '3' || c == '4' || c == '5' || c == '6' || c == '7'
        || c == '8' || c == '9'
}

pub open spec fn digit_val(c: char) -> int {
    if c == '0' {
        0
    } else if c == '1' {
        1
    } else if c == '2' {
        2
    } else if c == '3' {
        3
    } else if c == '4' {
        4
    } else if c == '5' {
        5
    } else if c == '6' {
        6
    } else if c == '7' {
        7
    } else if c == '8' {
        8
    } else if c == '9' {
        9
    } else {
        -1
    }
}

/// The decimal rendering of `n`, most significant digit first, no sign, no
/// leading zeros (a single `'0'` for zero).
pub open spec fn dec_digits(n: nat) -> Seq<char>
    decreases n,
{
    if n < 10 {
        seq![digit_char(n as int)]
    } else {
        dec_digits(n / 10).push(digit_char((n % 10) as int))
    }
}

/// The value of a digit sequence, most significant digit first.
pub open spec fn dec_val(s: Seq<char>) -> nat
    decreases s.len(),
{
    if s.len() == 0 {
        0
    } else {
        dec_val(s.drop_last()) * 10 + (if is_digit(s.last()) {
            digit_val(s.last())
        } else {
            0
        }) as nat
    }
}

pub proof fn lemma_dec_digits_are_digits(n: nat)
    ensures
        dec_digits(n).len() >= 1,
        forall|i: int| 0 <= i < dec_digits(n).len() ==> is_digit(#[trigger] dec_digits(n)[i]),
    decreases n,
{
    if n >= 10 {
        lemma_dec_digits_are_digits(n / 10);
    }
}

pub proof fn lemma_digit_char_val(d: int)
    requires
        0 <= d < 10,
    ensures
        is_digit(digit_char(d)),
        digit_val(digit_char(d)) == d,
{
}

/// Reading back the decimal rendering of `n` gives `n`.
pub proof fn lemma_dec_round_trip(n: nat)
    ensures
        dec_val(dec_digits(n)) == n,
    decreases n,
{
    if n < 10 {
        lemma_digit_char_val(n as int);
        assert(dec_digits(n).drop_last() =~= Seq::<char>::empty());
        assert(dec_val(Seq::<char>::empty()) == 0);
    } else {
        lemma_dec_round_trip(n / 10);
        lemma_digit_char_val((n % 10) as int);
        assert(dec_digits(n).drop_last() =~= dec_digits(n / 10));
        assert(dec_digits(n).last() == digit_char((n % 10) as int));
        assert(n == (n / 10) * 10 + n % 10) by {
            vstd::arithmetic::div_mod::lemma_fundamental_div_mod(n as int, 10);
        }
    }
}

/// The value of a digit-sequence prefix never exceeds the value of the whole.
pub proof fn lemma_dec_val_prefix_le(s: Seq<char>, i: int)
    requires
        0 <= i <= s.len(),
        forall|k: int| 0 <= k < s.len() ==> is_digit(#[trigger] s[k]),
    ensures
        dec_val(s.subrange(0, i)) <= dec_val(s),
    decreases s.len() - i,
{
    if i == s.len() {
        assert(s.subrange(0, i) =~= s);
    } else {
        lemma_dec_val_prefix_le(s, i + 1);
        assert(s.subrange(0, i + 1).drop_last() =~= s.subrange(0, i));
        assert(dec_val(s.subrange(0, i + 1)) == dec_val(s.subrange(0, i)) * 10 + digit_val(
            s[i],
        ));
    }
}

/// One digit character as a string slice.
fn digit_str(d: u64) -> (r: &'static str)
    requires
        d < 10,
    ensures
        r@ == seq![digit_char(d as int)],
{
    let r: &'static str = if d == 0 {
        "0"
    } else if d == 1 {
        "1"
    } else if d == 2 {
        "2"
    } else if d == 3 {
        "3"
    } else if d == 4 {
        "4"
    } else if d == 5 {
        "5"
    } else if d == 6 {
        "6"
    } else if d == 7 {
        "7"
    } else if d == 8 {
        "8"
    } else {
        "9"
    };
    proof {
        reveal_strlit("0");
        reveal_strlit("1");
        reveal_strlit("2");
        reveal_strlit("3");
        reveal_strlit("4");
        reveal_strlit("5");
        reveal_strlit("6");
        reveal_strlit("7");
        reveal_strlit("8");
        reveal_strlit("9");
        assert(r@ =~= seq![digit_char(d as int)]);
    }
    r
}

/// Length of the run of digit characters at the front of `s`.
pub open spec fn digit_run_len(s: Seq<char>) -> nat
    decreases s.len(),
{
    if s.len() > 0 && is_digit(s[0]) {
        1 + digit_run_len(s.drop_first())
    } else {
        0
    }
}

pub proof fn lemma_digit_run_props(s: Seq<char>)
    ensures
        digit_run_len(s) <= s.len(),
        forall|i: int| 0 <= i < digit_run_len(s) ==> is_digit(#[trigger] s[i]),
        digit_run_len(s) < s.len() ==> !is_digit(s[digit_run_len(s) as int]),
    decreases s.len(),
{
    if s.len() > 0 && is_digit(s[0]) {
        lemma_digit_run_props(s.drop_first());
        assert forall|i: int| 0 <= i < digit_run_len(s) implies is_digit(#[trigger] s[i]) by {
            if i >= 1 {
                assert(s[i] == s.drop_first()[i - 1]);
            }
        }
        if digit_run_len(s) < s.len() {
            assert(s[digit_run_len(s) as int] == s.drop_first()[digit_run_len(s.drop_first()) as int]);
        }
    }
}

/// If the first `k` characters are digits and the next one (if any) is not,
/// the digit run has length exactly `k`.
pub proof fn lemma_digit_run_len_is(s: Seq<char>, k: nat)
    requires
        k <= s.len(),
        forall|i: int| 0 <= i < k ==> is_digit(#[trigger] s[i]),
        k == s.len() || !is_digit(s[k as int]),
    ensures
        digit_run_len(s) == k,
    decreases k,
{
    if k == 0 {
    } else {
        lemma_digit_run_len_is(s.drop_first(), (k - 1) as nat);
    }
}

/// Scanning a number from the front of `s`: the maximal digit run, if it is
/// non-empty and its value fits in 64 bits, and what follows it.
pub open spec fn spec_scan_u64(s: Seq<char>) -> Option<(u64, Seq<char>)> {
    let l = digit_run_len(s) as int;
    if l == 0 {
        None
    } else if dec_val(s.subrange(0, l)) <= u64::MAX {
        Some((dec_val(s.subrange(0, l)) as u64, s.skip(l)))
    } else {
        None
    }
}

/// Scanning inverts rendering: a rendered number followed by anything that
/// does not begin with a digit scans back to the number.
pub proof fn lemma_scan_u64_inverts(n: u64, rest: Seq<char>)
    requires
        rest.len() == 0 || !is_digit(rest[0]),
    ensures
        spec_scan_u64(dec_digits(n as nat) + rest) == Some((n, rest)),
{
    let d = dec_digits(n as nat);
    let s = d + rest;
    lemma_dec_digits_are_digits(n as nat);
    lemma_digit_run_len_is(s, d.len());
    assert(s.subrange(0, d.len() as int) =~= d);
    lemma_dec_round_trip(n as nat);
    assert(s.skip(d.len() as int) =~= rest);
}

/// The digit character `c` stands for, if it is one.
fn digit_of(c: char) -> (r: Option<u64>)
    ensures
        match r {
            Some(d) => is_digit(c) && d == digit_val(c),
            None => !is_digit(c),
        },
{
    if c == '0' {
        Some(0)
    } else if c == '1' {
        Some(1)
    } else if c == '2' {
        Some(2)
    } else if c == '3' {
        Some(3)
    } else if c == '4' {
        Some(4)
    } else if c == '5' {
        Some(5)
    } else if c == '6' {
        Some(6)
    } else if c == '7' {
        Some(7)
    } else if c == '8' {
        Some(8)
    } else if c == '9' {
        Some(9)
    } else {
        None
    }
}

/// Scans a decimal number at `pos`, implementing `spec_scan_u64` on the
/// remainder of `chars`.
pub fn scan_u64(chars: &Vec<char>, pos: usize) -> (r: Option<(u64, usize)>)
    requires
        pos <= chars@.len(),
    ensures
        ({
            let rem = chars@.skip(pos as int);
            match r {
                Some((val, end)) => {
                    &&& pos <= end <= chars@.len()
                    &&& spec_scan_u64(rem) == Some((val, chars@.skip(end as int)))
                },
                None => spec_scan_u64(rem) is None,
            }
        }),
{
    let ghost rem = chars@.skip(pos as int);
    let len = chars.len();
    let mut end = pos;
    let mut acc: u64 = 0;
    proof {
        assert(chars@.subrange(pos as int, pos as int) =~= Seq::<char>::empty());
        lemma_digit_run_props(rem);
    }
    loop
        invariant
            pos <= end <= len,
            len == chars@.len(),
            rem == chars@.skip(pos as int),
            forall|k: int| pos <= k < end ==> is_digit(#[trigger] chars@[k]),
            acc == dec_val(chars@.subrange(pos as int, end as int)),
        ensures
            pos <= end <= len,
            forall|k: int| pos <= k < end ==> is_digit(#[trigger] chars@[k]),
            acc == dec_val(chars@.subrange(pos as int, end as int)),
            end == len || !is_digit(chars@[end as int]),
        decreases len - end,
    {
        if end == len {
            break;
        }
        let c = chars[end];
        let d = match digit_of(c) {
            Some(d) => d,
            None => { break; },
        };
        // the run extends past `end`; check the next prefix still fits
        let limit = (u64::MAX - d) / 10;
        proof {
            assert(chars@.subrange(pos as int, end as int + 1).drop_last() =~= chars@.subrange(
                pos as int,
                end as int,
            ));
            assert(dec_val(chars@.subrange(pos as int, end as int + 1)) == acc * 10 + d);
        }
        if acc > limit {
            proof {
                lemma_run_overflow(chars@, pos as int, end as int, acc, d);
            }
            return None;
        }
        proof {
            vstd::arithmetic::div_mod::lemma_fundamental_div_mod((u64::MAX - d) as int, 10);
        }
        acc = acc * 10 + d;
        end = end + 1;
    }
    // the digit run is exactly [pos, end)
    proof {
        lemma_digit_run_len_is(rem, (end - pos) as nat);
        assert(rem.subrange(0, end - pos) =~= chars@.subrange(pos as int, end as int));
        assert(rem.skip(end - pos) =~= chars@.skip(end as int));
    }
    if end == pos {
        None
    } else {
        Some((acc, end))
    }
}

/// If the next prefix of the digit run already exceeds `u64::MAX`, the whole
/// run does, and the scan yields nothing.
proof fn lemma_run_overflow(s: Seq<char>, pos: int, end: int, acc: u64, d: u64)
    requires
        0 <= pos <= end < s.len(),
        forall|k: int| pos <= k < end ==> is_digit(#[trigger] s[k]),
        is_digit(s[end]),
        d == digit_val(s[end]),
        acc == dec_val(s.subrange(pos, end)),
        acc > (u64::MAX - d) / 10,
    ensures
        spec_scan_u64(s.skip(pos)) is None,
{
    let rem = s.skip(pos);
    lemma_digit_run_props(rem);
    let l = digit_run_len(rem) as int;
    // the run reaches at least past `end`
    assert(forall|i: int| 0 <= i < end + 1 - pos ==> is_digit(#[trigger] rem[i]));
    if l < end + 1 - pos {
        assert(is_digit(rem[l]));
        assert(false);
    }
    // the prefix value already exceeds u64::MAX
    assert(rem.subrange(0, end + 1 - pos).drop_last() =~= rem.subrange(0, end - pos));
    assert(rem.subrange(0, end - pos) =~= s.subrange(pos, end));
    assert(rem.subrange(0, end + 1 - pos).last() == s[end]);
    assert(dec_val(rem.subrange(0, end + 1 - pos)) == acc * 10 + d);
    assert(acc * 10 + d > u64::MAX) by {
        let m = (u64::MAX - d) as int;
        vstd::arithmetic::div_mod::lemma_fundamental_div_mod(m, 10);
        assert(acc >= m / 10 + 1);
        assert(acc * 10 >= (m / 10 + 1) * 10) by (nonlinear_arith)
            requires acc >= m / 10 + 1;
        assert((m / 10 + 1) * 10 == (m / 10) * 10 + 10);
    }
    // so the whole run's value does too
    let run = rem.subrange(0, l);
    lemma_dec_val_prefix_le(run, end + 1 - pos);
    assert(run.subrange(0, end + 1 - pos) =~= rem.subrange(0, end + 1 - pos));
    assert(dec_val(run) > u64::MAX);
}

// ---------------------------------------------------------------------------
// String escaping
// ---------------------------------------------------------------------------

/// Whether `c` is a control character (code point below 32), which JSON
/// requires to be escaped inside a string.
pub open spec fn is_ctrl(c: char) -> bool {
    c == '\u{0}' || c == '\u{1}' || c == '\u{2}' || c == '\u{3}' || c == '\u{4}' || c == '\u{5}' || c == '\u{6}' || c == '\u{7}' || c == '\u{8}' || c == '\u{9}' || c == '\u{a}' || c == '\u{b}' || c == '\u{c}' || c == '\u{d}' || c == '\u{e}' || c == '\u{f}' || c == '\u{10}' || c == '\u{11}' || c == '\u{12}' || c == '\u{13}' || c == '\u{14}' || c == '\u{15}' || c == '\u{16}' || c == '\u{17}' || c == '\u{18}' || c == '\u{19}' || c == '\u{1a}' || c == '\u{1b}' || c == '\u{1c}' || c == '\u{1d}' || c == '\u{1e}' || c == '\u{1f}'
}

/// The high hex digit of a control character's code point.
pub open spec fn ctrl_hex_hi(c: char) -> char {
    if c == '\u{0}' || c == '\u{1}' || c == '\u{2}' || c == '\u{3}' || c == '\u{4}' || c == '\u{5}' || c == '\u{6}' || c == '\u{7}' || c == '\u{8}' || c == '\u{9}' || c == '\u{a}' || c == '\u{b}' || c == '\u{c}' || c == '\u{d}' || c == '\u{e}' || c == '\u{f}' {
        '0'
    } else {
        '1'
    }
}

/// The low hex digit of a control character's code point.
pub open spec fn ctrl_hex_lo(c: char) -> char {
    if c == '\u{0}' || c == '\u{10}' {
        '0'
    } else if c == '\u{1}' || c == '\u{11}' {
        '1'
    } else if c == '\u{2}' || c == '\u{12}' {
        '2'
    } else if c == '\u{3}' || c == '\u{13}' {
        '3'
    } else if c == '\u{4}' || c == '\u{14}' {
        '4'
    } else if c == '\u{5}' || c == '\u{15}' {
        '5'
    } else if c == '\u{6}' || c == '\u{16}' {
        '6'
    } else if c == '\u{7}' || c == '\u{17}' {
        '7'
    } else if c == '\u{8}' || c == '\u{18}' {
        '8'
    } else if c == '\u{9}' || c == '\u{19}' {
        '9'
    } else if c == '\u{a}' || c == '\u{1a}' {
        'a'
    } else if c == '\u{b}' || c == '\u{1b}' {
        'b'
    } else if c == '\u{c}' || c == '\u{1c}' {
        'c'
    } else if c == '\u{d}' || c == '\u{1d}' {
        'd'
    } else if c == '\u{e}' || c == '\u{1e}' {
        'e'
    } else {
        'f'
    }
}

/// The control character written as `\u00` plus these two hex digits.
pub open spec fn ctrl_of_hex(h: char, l: char) -> Option<char> {
    if h == '0' && l == '0' {
        Some('\u{0}')
    } else if h == '0' && l == '1' {
        Some('\u{1}')
    } else if h == '0' && l == '2' {
        Some('\u{2}')
    } else if h == '0' && l == '3' {
        Some('\u{3}')
    } else if h == '0' && l == '4' {
        Some('\u{4}')
    } else if h == '0' && l == '5' {
        Some('\u{5}')
    } else if h == '0' && l == '6' {
        Some('\u{6}')
    } else if h == '0' && l == '7' {
        Some('\u{7}')
    } else if h == '0' && l == '8' {
        Some('\u{8}')
    } else if h == '0' && l == '9' {
        Some('\u{9}')
    } else if h == '0' && l == 'a' {
        Some('\u{a}')
    } else if h == '0' && l == 'b' {
        Some('\u{b}')
    } else if h == '0' && l == 'c' {
        Some('\u{c}')
    } else if h == '0' && l == 'd' {
        Some('\u{d}')
    } else if h == '0' && l == 'e' {
        Some('\u{e}')
    } else if h == '0' && l == 'f' {
        Some('\u{f}')
    } else if h == '1' && l == '0' {
        Some('\u{10}')
    } else if h == '1' && l == '1' {
        Some('\u{11}')
    } else if h == '1' && l == '2' {
        Some('\u{12}')
    } else if h == '1' && l == '3' {
        Some('\u{13}')
    } else if h == '1' && l == '4' {
        Some('\u{14}')
    } else if h == '1' && l == '5' {
        Some('\u{15}')
    } else if h == '1' && l == '6' {
        Some('\u{16}')
    } else if h == '1' && l == '7' {
        Some('\u{17}')
    } else if h == '1' && l == '8' {
        Some('\u{18}')
    } else if h == '1' && l == '9' {
        Some('\u{19}')
    } else if h == '1' && l == 'a' {
        Some('\u{1a}')
    } else if h == '1' && l == 'b' {
        Some('\u{1b}')
    } else if h == '1' && l == 'c' {
        Some('\u{1c}')
    } else if h == '1' && l == 'd' {
        Some('\u{1d}')
    } else if h == '1' && l == 'e' {
        Some('\u{1e}')
    } else if h == '1' && l == 'f' {
        Some('\u{1f}')
    } else {
        None
    }
}

/// A control character's two hex digits decode back to it.
pub proof fn lemma_ctrl_round(c: char)
    requires
        is_ctrl(c),
    ensures
        ctrl_of_hex(ctrl_hex_hi(c), ctrl_hex_lo(c)) == Some(c),
{
}

/// Whether `c` is a control character.
fn char_is_ctrl(c: char) -> (r: bool)
    ensures
        r == is_ctrl(c),
{
    c == '\u{0}' || c == '\u{1}' || c == '\u{2}' || c == '\u{3}' || c == '\u{4}' || c == '\u{5}' || c == '\u{6}' || c == '\u{7}' || c == '\u{8}' || c == '\u{9}' || c == '\u{a}' || c == '\u{b}' || c == '\u{c}' || c == '\u{d}' || c == '\u{e}' || c == '\u{f}' || c == '\u{10}' || c == '\u{11}' || c == '\u{12}' || c == '\u{13}' || c == '\u{14}' || c == '\u{15}' || c == '\u{16}' || c == '\u{17}' || c == '\u{18}' || c == '\u{19}' || c == '\u{1a}' || c == '\u{1b}' || c == '\u{1c}' || c == '\u{1d}' || c == '\u{1e}' || c == '\u{1f}'
}

/// The two hex digits of a control character's code point.
#[verifier::rlimit(100)]
#[verifier::spinoff_prover]
fn ctrl_hex_str(c: char) -> (r: &'static str)
    requires
        is_ctrl(c),
    ensures
        r@ == seq![ctrl_hex_hi(c), ctrl_hex_lo(c)],
{
    let r: &'static str =
    if c == '\u{0}' {
        "00"
    } else if c == '\u{1}' {
        "01"
    } else if c == '\u{2}' {
        "02"
    } else if c == '\u{3}' {
        "03"
    } else if c == '\u{4}' {
        "04"
    } else if c == '\u{5}' {
        "05"
    } else if c == '\u{6}' {
        "06"
    } else if c == '\u{7}' {
        "07"
    } else if c == '\u{8}' {
        "08"
    } else if c == '\u{9}' {
        "09"
    } else if c == '\u{a}' {
        "0a"
    } else if c == '\u{b}' {
        "0b"
    } else if c == '\u{c}' {
        "0c"
    } else if c == '\u{d}' {
        "0d"
    } else if c == '\u{e}' {
        "0e"
    } else if c == '\u{f}' {
        "0f"
    } else if c == '\u{10}' {
        "10"
    } else if c == '\u{11}' {
        "11"
    } else if c == '\u{12}' {
        "12"
    } else if c == '\u{13}' {
        "13"
    } else if c == '\u{14}' {
        "14"
    } else if c == '\u{15}' {
        "15"
    } else if c == '\u{16}' {
        "16"
    } else if c == '\u{17}' {
        "17"
    } else if c == '\u{18}' {
        "18"
    } else if c == '\u{19}' {
        "19"
    } else if c == '\u{1a}' {
        "1a"
    } else if c == '\u{1b}' {
        "1b"
    } else if c == '\u{1c}' {
        "1c"
    } else if c == '\u{1d}' {
        "1d"
    } else if c == '\u{1e}' {
        "1e"
    } else {
        "1f"
    };
    proof {
        reveal_strlit("00");
        reveal_strlit("01");
        reveal_strlit("02");
        reveal_strlit("03");
        reveal_strlit("04");
        reveal_strlit("05");
        reveal_strlit("06");
        reveal_strlit("07");
        reveal_strlit("08");
        reveal_strlit("09");
        reveal_strlit("0a");
        reveal_strlit("0b");
        reveal_strlit("0c");
        reveal_strlit("0d");
        reveal_strlit("0e");
        reveal_strlit("0f");
        reveal_strlit("10");
        reveal_strlit("11");
        reveal_strlit("12");
        reveal_strlit("13");
        reveal_strlit("14");
        reveal_strlit("15");
        reveal_strlit("16");
        reveal_strlit("17");
        reveal_strlit("18");
        reveal_strlit("19");
        reveal_strlit("1a");
        reveal_strlit("1b");
        reveal_strlit("1c");
        reveal_strlit("1d");
        reveal_strlit("1e");
        reveal_strlit("1f");
        assert(r@ =~= seq![ctrl_hex_hi(c), ctrl_hex_lo(c)]);
    }
    r
}

/// The control character for two hex digits, if they name one.
fn ctrl_from_hex(h: char, l: char) -> (r: Option<char>)
    ensures
        r == ctrl_of_hex(h, l),
{
    if h == '0' && l == '0' {
        Some('\u{0}')
    } else if h == '0' && l == '1' {
        Some('\u{1}')
    } else if h == '0' && l == '2' {
        Some('\u{2}')
    } else if h == '0' && l == '3' {
        Some('\u{3}')
    } else if h == '0' && l == '4' {
        Some('\u{4}')
    } else if h == '0' && l == '5' {
        Some('\u{5}')
    } else if h == '0' && l == '6' {
        Some('\u{6}')
    } else if h == '0' && l == '7' {
        Some('\u{7}')
    } else if h == '0' && l == '8' {
        Some('\u{8}')
    } else if h == '0' && l == '9' {
        Some('\u{9}')
    } else if h == '0' && l == 'a' {
        Some('\u{a}')
    } else if h == '0' && l == 'b' {
        Some('\u{b}')
    } else if h == '0' && l == 'c' {
        Some('\u{c}')
    } else if h == '0' && l == 'd' {
        Some('\u{d}')
    } else if h == '0' && l == 'e' {
        Some('\u{e}')
    } else if h == '0' && l == 'f' {
        Some('\u{f}')
    } else if h == '1' && l == '0' {
        Some('\u{10}')
    } else if h == '1' && l == '1' {
        Some('\u{11}')
    } else if h == '1' && l == '2' {
        Some('\u{12}')
    } else if h == '1' && l == '3' {
        Some('\u{13}')
    } else if h == '1' && l == '4' {
        Some('\u{14}')
    } else if h == '1' && l == '5' {
        Some('\u{15}')
    } else if h == '1' && l == '6' {
        Some('\u{16}')
    } else if h == '1' && l == '7' {
        Some('\u{17}')
    } else if h == '1' && l == '8' {
        Some('\u{18}')
    } else if h == '1' && l == '9' {
        Some('\u{19}')
    } else if h == '1' && l == 'a' {
        Some('\u{1a}')
    } else if h == '1' && l == 'b' {
        Some('\u{1b}')
    } else if h == '1' && l == 'c' {
        Some('\u{1c}')
    } else if h == '1' && l == 'd' {
        Some('\u{1d}')
    } else if h == '1' && l == 'e' {
        Some('\u{1e}')
    } else if h == '1' && l == 'f' {
        Some('\u{1f}')
    } else {
        None
    }
}

/// The escaped form of one character: quote and backslash get a backslash in
/// front, control characters become `\u00` plus two hex digits, everything
/// else stands as itself.
pub open spec fn esc_char(c: char) -> Seq<char> {
    if c == '"' || c == '\\' {
        seq!['\\', c]
    } else if is_ctrl(c) {
        seq!['\\', 'u', '0', '0', ctrl_hex_hi(c), ctrl_hex_lo(c)]
    } else {
        seq![c]
    }
}

/// The escaped form of a string: each character escaped in order.
pub open spec fn escape_string(s: Seq<char>) -> Seq<char>
    decreases s.len(),
{
    if s.len() == 0 {
        Seq::empty()
    } else {
        esc_char(s[0]) + escape_string(s.drop_first())
    }
}

pub proof fn lemma_escape_append(a: Seq<char>, b: Seq<char>)
    ensures
        escape_string(a + b) == escape_string(a) + escape_string(b),
    decreases a.len(),
{
    if a.len() == 0 {
        assert(a + b =~= b);
        assert(escape_string(a) + escape_string(b) =~= escape_string(b));
    } else {
        lemma_escape_append(a.drop_first(), b);
        assert((a + b).drop_first() =~= a.drop_first() + b);
        assert((a + b)[0] == a[0]);
        assert(esc_char(a[0]) + (escape_string(a.drop_first()) + escape_string(b)) =~= (esc_char(
            a[0],
        ) + escape_string(a.drop_first())) + escape_string(b));
    }
}

/// Appends the escaped form of `s` to `out`.
pub fn push_escaped(out: &mut String, s: &str)
    ensures
        final(out)@ == old(out)@ + escape_string(s@),
{
    let n = s.unicode_len();
    let mut i: usize = 0;
    proof {
        assert(s@.subrange(0, 0) =~= Seq::<char>::empty());
    }
    while i < n
        invariant
            i <= n,
            n == s@.len(),
            out@ == old(out)@ + escape_string(s@.subrange(0, i as int)),
        decreases n - i,
    {
        let c = s.get_char(i);
        if c == '"' || c == '\\' {
            out.append("\\");
            proof {
                reveal_strlit("\\");
            }
            push_char(out, c);
        } else if char_is_ctrl(c) {
            out.append("\\u00");
            out.append(ctrl_hex_str(c));
            proof {
                reveal_strlit("\\u00");
                assert(("\\u00")@ =~= seq!['\\', 'u', '0', '0']);
            }
        } else {
            push_char(out, c);
        }
        proof {
            assert(s@.subrange(0, i + 1) =~= s@.subrange(0, i as int) + seq![s@[i as int]]);
            lemma_escape_append(s@.subrange(0, i as int), seq![s@[i as int]]);
            assert(seq![s@[i as int]].len() == 1);
            assert(seq![s@[i as int]][0] == s@[i as int]);
            assert(seq![s@[i as int]].drop_first() =~= Seq::<char>::empty());
            assert(escape_string(Seq::<char>::empty()) == Seq::<char>::empty());
            assert(esc_char(s@[i as int]) + Seq::<char>::empty() =~= esc_char(s@[i as int]));
            assert(escape_string(seq![s@[i as int]]) == esc_char(s@[i as int]));
            assert("\\"@ =~= seq!['\\']) by {
                reveal_strlit("\\");
            }
            assert(out@ =~= old(out)@ + (escape_string(s@.subrange(0, i as int)) + esc_char(
                s@[i as int],
            )));
            assert(out@ == old(out)@ + escape_string(s@.subrange(0, i + 1)));
        }
        i = i + 1;
    }
    proof {
        assert(s@.subrange(0, n as int) =~= s@);
    }
}

/// Scanning a quoted string's body: `s` is everything after the opening
/// quote; the scan runs to the matching unescaped closing quote, undoing the
/// two escapes, and yields the content and what follows the closing quote.
pub open spec fn spec_scan_string(s: Seq<char>) -> Option<(Seq<char>, Seq<char>)>
    decreases s.len(),
{
    if s.len() == 0 {
        None
    } else if s[0] == '"' {
        Some((Seq::empty(), s.drop_first()))
    } else if s[0] == '\\' {
        if s.len() >= 2 && (s[1] == '"' || s[1] == '\\') {
            match spec_scan_string(s.skip(2)) {
                Some((content, rest)) => Some((seq![s[1]] + content, rest)),
                None => None,
            }
        } else if s.len() >= 6 && s[1] == 'u' && s[2] == '0' && s[3] == '0' && ctrl_of_hex(
            s[4],
            s[5],
        ) is Some {
            match spec_scan_string(s.skip(6)) {
                Some((content, rest)) => Some(
                    (seq![ctrl_of_hex(s[4], s[5])->Some_0] + content, rest),
                ),
                None => None,
            }
        } else {
            None
        }
    } else {
        match spec_scan_string(s.drop_first()) {
            Some((content, rest)) => Some((seq![s[0]] + content, rest)),
            None => None,
        }
    }
}

/// Scanning inverts escaping: an escaped string, its closing quote and a
/// remainder scan back to the string and the remainder.
pub proof fn lemma_scan_string_inverts(content: Seq<char>, rest: Seq<char>)
    ensures
        spec_scan_string(escape_string(content) + seq!['"'] + rest) == Some((content, rest)),
    decreases content.len(),
{
    let s = escape_string(content) + seq!['"'] + rest;
    if content.len() == 0 {
        assert(s =~= seq!['"'] + rest);
        assert(s[0] == '"');
        assert(s.drop_first() =~= rest);
    } else {
        let c = content[0];
        let tail = content.drop_first();
        lemma_scan_string_inverts(tail, rest);
        if c == '"' || c == '\\' {
            assert(s[0] == '\\');
            assert(s[1] == c);
            assert(s.skip(2) =~= escape_string(tail) + seq!['"'] + rest);
            assert(seq![c] + tail =~= content);
        } else if is_ctrl(c) {
            lemma_ctrl_round(c);
            assert(s[0] == '\\');
            assert(s[1] == 'u');
            assert(s[2] == '0');
            assert(s[3] == '0');
            assert(s[4] == ctrl_hex_hi(c));
            assert(s[5] == ctrl_hex_lo(c));
            assert(s.skip(6) =~= escape_string(tail) + seq!['"'] + rest);
            assert(seq![c] + tail =~= content);
        } else {
            assert(s[0] == c);
            assert(s.drop_first() =~= escape_string(tail) + seq!['"'] + rest);
            assert(seq![c] + tail =~= content);
        }
    }
}

/// Scans a quoted string body at `pos` (just after the opening quote),
/// implementing `spec_scan_string` on the remainder of `chars`.
pub fn scan_string(chars: &Vec<char>, pos: usize) -> (r: Option<(String, usize)>)
    requires
        pos <= chars@.len(),
    ensures
        ({
            let rem = chars@.skip(pos as int);
            match r {
                Some((content, end)) => {
                    &&& pos <= end <= chars@.len()
                    &&& spec_scan_string(rem) == Some((content@, chars@.skip(end as int)))
                },
                None => spec_scan_string(rem) is None,
            }
        }),
{
    let ghost rem = chars@.skip(pos as int);
    let len = chars.len();
    let mut i = pos;
    let mut out = String::new();
    loop
        invariant
            pos <= i <= len,
            len == chars@.len(),
            rem == chars@.skip(pos as int),
            spec_scan_string(rem) == (match spec_scan_string(chars@.skip(i as int)) {
                Some((c, r)) => Some((out@ + c, r)),
                None => None::<(Seq<char>, Seq<char>)>,
            }),
        decreases len - i,
    {
        let ghost cur = chars@.skip(i as int);
        if i == len {
            return None;
        }
        proof {
            assert(cur[0] == chars@[i as int]);
        }
        let c = chars[i];
        if c == '"' {
            proof {
                assert(cur.drop_first() =~= chars@.skip(i + 1));
                assert(out@ + Seq::<char>::empty() =~= out@);
            }
            return Some((out, i + 1));
        } else if c == '\\' {
            if i + 1 == len {
                return None;
            }
            proof {
                assert(cur[1] == chars@[i + 1]);
            }
            let e = chars[i + 1];
            if e == '"' || e == '\\' {
                push_char(&mut out, e);
                proof {
                    assert(cur.skip(2) =~= chars@.skip(i + 2));
                    assert(forall|c2: Seq<char>| (out@ + c2 =~= (out@.drop_last() + seq![e])
                        + c2));
                }
                i = i + 2;
                proof {
                    if let Some((c2, r2)) = spec_scan_string(chars@.skip(i as int)) {
                        assert((out@.drop_last()) + (seq![e] + c2) =~= out@ + c2);
                    }
                }
            } else if e == 'u' {
                if len - i < 6 {
                    return None;
                }
                proof {
                    assert(cur[2] == chars@[i + 2]);
                    assert(cur[3] == chars@[i + 3]);
                    assert(cur[4] == chars@[i + 4]);
                    assert(cur[5] == chars@[i + 5]);
                }
                if chars[i + 2] == '0' && chars[i + 3] == '0' {
                    match ctrl_from_hex(chars[i + 4], chars[i + 5]) {
                        Some(cc) => {
                            push_char(&mut out, cc);
                            proof {
                                assert(cur.skip(6) =~= chars@.skip(i + 6));
                            }
                            i = i + 6;
                            proof {
                                if let Some((c2, r2)) = spec_scan_string(chars@.skip(i as int)) {
                                    assert((out@.drop_last()) + (seq![cc] + c2) =~= out@ + c2);
                                }
                            }
                        },
                        None => {
                            return None;
                        },
                    }
                } else {
                    return None;
                }
            } else {
                return None;
            }
        } else {
            push_char(&mut out, c);
            proof {
                assert(cur.drop_first() =~= chars@.skip(i + 1));
            }
            i = i + 1;
            proof {
                if let Some((c2, r2)) = spec_scan_string(chars@.skip(i as int)) {
                    assert((out@.drop_last()) + (seq![c] + c2) =~= out@ + c2);
                }
            }
        }
    }
}

// ---------------------------------------------------------------------------
// Literals
// ---------------------------------------------------------------------------

/// Whether `s` begins with `prefix`.
pub open spec fn starts_with(s: Seq<char>, prefix: Seq<char>) -> bool {
    s.len() >= prefix.len() && s.subrange(0, prefix.len() as int) == prefix
}

/// A concatenation starts with its first part, and stepping over it leaves
/// the second.
pub proof fn lemma_starts_with_concat(prefix: Seq<char>, tail: Seq<char>)
    ensures
        starts_with(prefix + tail, prefix),
        (prefix + tail).skip(prefix.len() as int) == tail,
{
    assert((prefix + tail).subrange(0, prefix.len() as int) =~= prefix);
    assert((prefix + tail).skip(prefix.len() as int) =~= tail);
}

/// Checks that `lit` stands at `pos` and steps over it.
pub fn expect_lit(chars: &Vec<char>, pos: usize, lit: &str) -> (r: Option<usize>)
    requires
        pos <= chars@.len(),
    ensures
        match r {
            Some(end) => {
                &&& starts_with(chars@.skip(pos as int), lit@)
                &&& end == pos + lit@.len()
                &&& end <= chars@.len()
            },
            None => !starts_with(chars@.skip(pos as int), lit@),
        },
{
    let ghost rem = chars@.skip(pos as int);
    let n = lit.unicode_len();
    let len = chars.len();
    if len - pos < n {
        return None;
    }
    let mut i: usize = 0;
    while i < n
        invariant
            i <= n,
            n == lit@.len(),
            len == chars@.len(),
            pos + n <= len,
            rem == chars@.skip(pos as int),
            forall|k: int| 0 <= k < i ==> rem[k] == lit@[k],
        decreases n - i,
    {
        proof {
            assert(rem[i as int] == chars@[pos + i]);
        }
        if chars[pos + i] != lit.get_char(i) {
            proof {
                if starts_with(rem, lit@) {
                    assert(rem.subrange(0, n as int)[i as int] == rem[i as int]);
                }
            }
            return None;
        }
        i = i + 1;
    }
    proof {
        assert(rem.subrange(0, n as int) =~= lit@);
    }
    Some(pos + n)
}

/// Turns a string into its characters for scanning.
pub fn str_chars(s: &str) -> (r: Vec<char>)
    ensures
        r@ == s@,
{
    let n = s.unicode_len();
    let mut v: Vec<char> = Vec::new();
    let mut i: usize = 0;
    proof {
        assert(s@.subrange(0, 0) =~= Seq::<char>::empty());
    }
    while i < n
        invariant
            i <= n,
            n == s@.len(),
            v@ == s@.subrange(0, i as int),
        decreases n - i,
    {
        v.push(s.get_char(i));
        proof {
            assert(s@.subrange(0, i + 1) =~= s@.subrange(0, i as int).push(s@[i as int]));
        }
        i = i + 1;
    }
    proof {
        assert(s@.subrange(0, n as int) =~= s@);
    }
    v
}

/// Character-for-character string equality.
pub fn str_eq(a: &str, b: &str) -> (r: bool)
    ensures
        r == (a@ == b@),
{
    let n = a.unicode_len();
    if n != b.unicode_len() {
        return false;
    }
    let mut i: usize = 0;
    while i < n
        invariant
            i <= n,
            n == a@.len(),
            n == b@.len(),
            forall|k: int| 0 <= k < i ==> a@[k] == b@[k],
        decreases n - i,
    {
        if a.get_char(i) != b.get_char(i) {
            return false;
        }
        i = i + 1;
    }
    proof {
        assert(a@ =~= b@);
    }
    true
}

/// Relies on std's `String::push`: it appends exactly the one character.
#[verifier::external_body]
pub fn push_char(s: &mut String, c: char)
    ensures
        final(s)@ == old(s)@ + seq![c],
{
    s.push(c);
}

/// Appends the decimal rendering of `n` to `out`.
pub fn push_dec_digits(out: &mut String, n: u64)
    ensures
        final(out)@ == old(out)@ + dec_digits(n as nat),
    decreases n,
{
    if n >= 10 {
        push_dec_digits(out, n / 10);
    }
    out.append(digit_str(n % 10));
    proof {
        if n < 10 {
            assert(old(out)@ + dec_digits(n as nat) =~= old(out)@ + seq![digit_char(n as int)]);
        } else {
            assert(old(out)@ + dec_digits(n as nat) =~= (old(out)@ + dec_digits((n / 10) as nat))
                + seq![digit_char((n % 10) as int)]);
        }
    }
}

} // verus!
