//! Probed video metadata: durations as exact decimals, creation timestamps,
//! parsing of the probe's line-oriented output, and the capture gap derived
//! from the duration.

use vstd::prelude::*;

use crate::text::digit_char;

verus! {

/// A non-negative duration in seconds, kept as an exact decimal: a whole
/// number of seconds plus a sequence of fractional decimal digits.
/// Trailing zero digits are trimmed, so two durations of equal value have
/// equal fields.
pub struct Duration {
    /// Whole seconds.
    pub secs: u64,
    /// Decimal digits after the point, most significant first, each `0..=9`,
    /// with no trailing zero.
    pub frac: Vec<u8>,
}

impl Duration {
    /// The fractional digits are in range and carry no trailing zero.
    pub open spec fn wf(self) -> bool {
        &&& forall|i: int| 0 <= i < self.frac@.len() ==> self.frac@[i] < 10
        &&& self.frac@.len() > 0 ==> self.frac@.last() != 0
    }

    /// A duration of exactly `secs` whole seconds.
    pub fn from_secs(secs: u64) -> (d: Duration)
        ensures
            d.wf(),
            d.secs == secs,
            d.frac@.len() == 0,
    {
        Duration { secs, frac: Vec::new() }
    }
}

/// A creation timestamp in civil (calendar) form, normalised to UTC.
#[derive(PartialEq, Eq, Structural, Clone, Copy, Debug)]
pub struct Timestamp {
    pub year: i32,
    pub month: u8,
    pub day: u8,
    pub hour: u8,
    pub minute: u8,
    pub second: u8,
}

impl Timestamp {
    /// The calendar fields are within their ranges.
    pub open spec fn wf(self) -> bool {
        &&& 1 <= self.month <= 12
        &&& 1 <= self.day <= 31
        &&& self.hour <= 23
        &&& self.minute <= 59
        &&& self.second <= 59
    }

    /// The start of 1970, the default creation date when the probe reports
    /// none.
    pub fn epoch() -> (t: Timestamp)
        ensures
            t == (Timestamp { year: 1970, month: 1, day: 1, hour: 0, minute: 0, second: 0 }),
            t.wf(),
    {
        Timestamp { year: 1970, month: 1, day: 1, hour: 0, minute: 0, second: 0 }
    }
}

/// Whether `c` is a decimal digit.
pub open spec fn is_digit(c: char) -> bool {
    '0' <= c && c <= '9'
}

/// The value of a decimal digit character.
pub open spec fn digit_val(c: char) -> int {
    c as int - 48
}

/// Whether `s` is non-empty and all decimal digits.
pub open spec fn all_digits(s: Seq<char>) -> bool {
    s.len() > 0 && (forall|i: int| 0 <= i < s.len() ==> is_digit(s[i]))
}

/// The number denoted by a sequence of decimal digit characters, most
/// significant first.
pub open spec fn digits_val(s: Seq<char>) -> nat
    decreases s.len(),
{
    if s.len() == 0 {
        0
    } else {
        digits_val(s.drop_last()) * 10 + (if is_digit(s.last()) {
            digit_val(s.last()) as nat
        } else {
            0
        })
    }
}

/// The index of the first `'.'` in `s`, or `s.len()` if there is none.
pub open spec fn dot_index(s: Seq<char>) -> int
    decreases s.len(),
{
    if s.len() == 0 {
        0
    } else if s[0] == '.' {
        0
    } else {
        1 + dot_index(s.drop_first())
    }
}

/// Whether `s` spells a plain decimal duration as the probe prints one:
/// one or more digits, optionally followed by a point and one or more
/// digits.
pub open spec fn is_duration_lit(s: Seq<char>) -> bool {
    let d = dot_index(s);
    &&& all_digits(s.take(d))
    &&& d < s.len() ==> all_digits(s.skip(d + 1))
}

/// `f` with its trailing `'0'` digits removed.
pub open spec fn trim_zeros(f: Seq<char>) -> Seq<char>
    decreases f.len(),
{
    if f.len() > 0 && f.last() == '0' {
        trim_zeros(f.drop_last())
    } else {
        f
    }
}

/// The fractional digits of a duration literal: what follows the point,
/// trailing zeros trimmed; empty when there is no point.
pub open spec fn lit_frac(s: Seq<char>) -> Seq<char> {
    let d = dot_index(s);
    if d < s.len() {
        trim_zeros(s.skip(d + 1))
    } else {
        Seq::empty()
    }
}

/// The duration denoted by `s`: `s` spells a duration literal whose whole
/// part fits in the result type, the whole seconds are the value of the
/// digits before the point, and the fractional digits are those after the
/// point with trailing zeros trimmed.
pub open spec fn spec_parse_duration(s: Seq<char>, d: Duration) -> bool {
    &&& is_duration_lit(s)
    &&& digits_val(s.take(dot_index(s))) <= u64::MAX
    &&& d.secs == digits_val(s.take(dot_index(s)))
    &&& d.frac@.map_values(|b: u8| digit_char(b as int)) == lit_frac(s)
}

/// Whether `s` parses as a duration at all.
pub open spec fn parses_as_duration(s: Seq<char>) -> bool {
    is_duration_lit(s) && digits_val(s.take(dot_index(s))) <= u64::MAX
}

proof fn lemma_dot_index(s: Seq<char>)
    ensures
        0 <= dot_index(s) <= s.len(),
        forall|j: int| 0 <= j < dot_index(s) ==> s[j] != '.',
        dot_index(s) < s.len() ==> s[dot_index(s)] == '.',
    decreases s.len(),
{
    if s.len() == 0 {
    } else if s[0] == '.' {
    } else {
        lemma_dot_index(s.drop_first());
        assert forall|j: int| 0 <= j < dot_index(s) implies s[j] != '.' by {
            if j > 0 {
                assert(s[j] == s.drop_first()[j - 1]);
            }
        }
        if dot_index(s) < s.len() {
            assert(s[dot_index(s)] == s.drop_first()[dot_index(s) - 1]);
        }
    }
}

/// Prefixes of a digit string denote values that never shrink as the prefix
/// grows.
proof fn lemma_digits_val_prefix_mono(s: Seq<char>, i: int, j: int)
    requires
        0 <= i <= j <= s.len(),
    ensures
        digits_val(s.take(i)) <= digits_val(s.take(j)),
    decreases j - i,
{
    if i < j {
        lemma_digits_val_prefix_mono(s, i, j - 1);
        assert(s.take(j).drop_last() =~= s.take(j - 1));
        assert(digits_val(s.take(j)) == digits_val(s.take(j - 1)) * 10 + (if is_digit(
            s.take(j).last(),
        ) {
            digit_val(s.take(j).last()) as nat
        } else {
            0
        }));
    }
}

/// Parses the digits of `s` between `from` and `to` as a decimal number,
/// or reports that a non-digit stands there or that the value does not fit.
fn parse_digits(s: &Vec<char>, from: usize, to: usize) -> (r: Option<u64>)
    requires
        from <= to <= s@.len(),
    ensures
        match r {
            Some(v) => {
                &&& forall|j: int| from <= j < to ==> is_digit(s@[j])
                &&& v == digits_val(s@.subrange(from as int, to as int))
            },
            None => {
                ||| exists|j: int| from <= j < to && !is_digit(s@[j])
                ||| digits_val(s@.subrange(from as int, to as int)) > u64::MAX
            },
        },
{
    let ghost whole = s@.subrange(from as int, to as int);
    let mut val: u64 = 0;
    let mut i: usize = from;
    while i < to
        invariant
            from <= i <= to <= s@.len(),
            whole == s@.subrange(from as int, to as int),
            forall|j: int| from <= j < i ==> is_digit(s@[j]),
            val == digits_val(s@.subrange(from as int, i as int)),
        decreases to - i,
    {
        let c = s[i];
        if !('0' <= c && c <= '9') {
            return None;
        }
        let v = c as u32;
        proof {
            assert(v == c as int);
        }
        let dv = (v - 48) as u64;
        let next = match val.checked_mul(10) {
            Some(m) => m.checked_add(dv),
            None => None,
        };
        proof {
            assert(s@.subrange(from as int, i + 1 as int).drop_last() =~= s@.subrange(
                from as int,
                i as int,
            ));
            assert(s@.subrange(from as int, i + 1 as int).last() == s@[i as int]);
        }
        match next {
            Some(n) => {
                val = n;
            },
            None => {
                proof {
                    lemma_digits_val_prefix_mono(whole, i + 1 - from, to - from);
                    assert(whole.take(i + 1 - from) =~= s@.subrange(from as int, i + 1 as int));
                    assert(whole.take(to - from) =~= whole);
                }
                return None;
            },
        }
        i = i + 1;
    }
    proof {
        assert(s@.subrange(from as int, to as int) =~= whole);
    }
    Some(val)
}

/// Parses `s` as a plain decimal duration.  Returns the duration exactly
/// when `s` consists of one or more digits, optionally followed by a point
/// and one or more digits, and the whole-second part fits in a `u64`;
/// returns nothing otherwise.
#[verifier::loop_isolation(false)]
pub fn parse_duration(s: &Vec<char>) -> (r: Option<Duration>)
    ensures
        r is Some <==> parses_as_duration(s@),
        r matches Some(d) ==> d.wf() && spec_parse_duration(s@, d),
{
    proof {
        lemma_dot_index(s@);
    }
    // Locate the point, if any.
    let mut dot: usize = 0;
    while dot < s.len() && s[dot] != '.'
        invariant
            0 <= dot <= s@.len(),
            forall|j: int| 0 <= j < dot ==> s@[j] != '.',
        decreases s@.len() - dot,
    {
        dot = dot + 1;
    }
    proof {
        if dot < s@.len() {
            assert(dot == dot_index(s@)) by {
                lemma_dot_index(s@);
                if dot_index(s@) < dot {
                    assert(s@[dot_index(s@)] != '.');
                }
            }
        } else {
            assert(dot == dot_index(s@)) by {
                lemma_dot_index(s@);
            }
        }
    }
    if dot == 0 {
        // No digits before the point: not a duration literal.
        assert(!all_digits(s@.take(0)));
        return None;
    }
    let whole = match parse_digits(s, 0, dot) {
        Some(v) => v,
        None => {
            proof {
                assert(s@.subrange(0, dot as int) =~= s@.take(dot as int));
                if exists|j: int| 0 <= j < dot && !is_digit(s@[j]) {
                    let j = choose|j: int| 0 <= j < dot && !is_digit(s@[j]);
                    assert(s@.take(dot as int)[j] == s@[j]);
                    assert(!all_digits(s@.take(dot_index(s@))));
                }
            }
            return None;
        },
    };
    proof {
        assert(s@.subrange(0, dot as int) =~= s@.take(dot as int));
    }
    let mut frac: Vec<u8> = Vec::new();
    if dot < s.len() {
        if dot + 1 == s.len() {
            // A point with nothing after it: not a duration literal.
            assert(!all_digits(s@.skip(dot + 1)));
            return None;
        }
        let mut i: usize = dot + 1;
        while i < s.len()
            invariant
                dot + 1 <= i <= s@.len(),
                frac@.len() == i - dot - 1,
                forall|j: int| dot + 1 <= j < i ==> is_digit(s@[j]),
                forall|j: int| 0 <= j < frac@.len() ==> frac@[j] < 10,
                frac@.map_values(|b: u8| digit_char(b as int)) =~= s@.subrange(
                    dot + 1 as int,
                    i as int,
                ),
            decreases s@.len() - i,
        {
            let c = s[i];
            if !('0' <= c && c <= '9') {
                proof {
                    assert(s@.skip(dot + 1)[i - dot - 1] == s@[i as int]);
                    assert(!all_digits(s@.skip(dot_index(s@) + 1)));
                }
                return None;
            }
            let v = c as u32;
            proof {
                assert(v == c as int);
            }
            frac.push((v - 48) as u8);
            proof {
                assert(digit_char((s@[i as int] as int) - 48) == s@[i as int]);
                assert(frac@.map_values(|b: u8| digit_char(b as int)) =~= s@.subrange(
                    dot + 1 as int,
                    i + 1 as int,
                ));
            }
            i = i + 1;
        }
        // Trim trailing zeros so that equal values have equal digits.
        while frac.len() > 0 && frac[frac.len() - 1] == 0
            invariant
                forall|j: int| 0 <= j < frac@.len() ==> frac@[j] < 10,
                trim_zeros(frac@.map_values(|b: u8| digit_char(b as int))) == trim_zeros(
                    s@.skip(dot + 1),
                ),
            decreases frac@.len(),
        {
            proof {
                let mapped = frac@.map_values(|b: u8| digit_char(b as int));
                assert(mapped.last() == '0');
                assert(mapped.drop_last() =~= frac@.drop_last().map_values(
                    |b: u8| digit_char(b as int),
                ));
            }
            frac.pop();
        }
        proof {
            let mapped = frac@.map_values(|b: u8| digit_char(b as int));
            if frac@.len() > 0 {
                assert(frac@.last() != 0);
                assert(mapped.last() == digit_char(frac@.last() as int));
                assert(mapped.last() != '0');
                assert(trim_zeros(mapped) == mapped);
            } else {
                assert(mapped =~= Seq::<char>::empty());
                assert(trim_zeros(mapped) == mapped);
            }
        }
    }
    let d = Duration { secs: whole, frac };
    proof {
        assert(s@.take(dot_index(s@)) =~= s@.take(dot as int));
        if dot < s@.len() {
            assert(d.frac@.map_values(|b: u8| digit_char(b as int)) == lit_frac(s@));
        } else {
            assert(d.frac@.map_values(|b: u8| digit_char(b as int)) =~= Seq::<char>::empty());
        }
    }
    Some(d)
}

/// Ten to the `k`.
pub open spec fn pow10(k: nat) -> nat
    decreases k,
{
    if k == 0 {
        1
    } else {
        10 * pow10((k - 1) as nat)
    }
}

/// The value of fractional digits read as a whole number.
pub open spec fn frac_val(f: Seq<u8>) -> nat
    decreases f.len(),
{
    if f.len() == 0 {
        0
    } else {
        frac_val(f.drop_last()) * 10 + f.last() as nat
    }
}

proof fn lemma_pow10_pos(k: nat)
    ensures
        pow10(k) >= 1,
    decreases k,
{
    if k > 0 {
        lemma_pow10_pos((k - 1) as nat);
    }
}

proof fn lemma_frac_val_below_pow10(f: Seq<u8>)
    requires
        forall|i: int| 0 <= i < f.len() ==> f[i] < 10,
    ensures
        frac_val(f) < pow10(f.len()),
    decreases f.len(),
{
    if f.len() > 0 {
        lemma_frac_val_below_pow10(f.drop_last());
        assert(frac_val(f) == frac_val(f.drop_last()) * 10 + f.last());
        assert(pow10(f.len()) == 10 * pow10((f.len() - 1) as nat));
        assert(frac_val(f.drop_last()) * 10 + f.last() < 10 * pow10((f.len() - 1) as nat))
            by (nonlinear_arith)
            requires
                frac_val(f.drop_last()) < pow10((f.len() - 1) as nat),
                f.last() < 10,
        ;
    }
}

/// The capture gap is the floor of a third of the duration.  A duration with
/// `k` fractional digits denotes the rational `num / den` with
/// `den == pow10(k)` and `num == secs * den + frac_val(frac)`; dividing that
/// value by three and rounding down gives exactly the whole seconds divided
/// by three, which is what `get_capture_gap` returns.
pub proof fn lemma_gap_is_floor_of_third(d: Duration)
    requires
        d.wf(),
    ensures
        (d.secs * pow10(d.frac@.len()) + frac_val(d.frac@)) as int / (3 * pow10(
            d.frac@.len(),
        ) as int) == d.secs as int / 3,
{
    let k = d.frac@.len();
    let den = pow10(k) as int;
    let fv = frac_val(d.frac@) as int;
    lemma_pow10_pos(k);
    lemma_frac_val_below_pow10(d.frac@);
    let q = d.secs as int / 3;
    let r = d.secs as int % 3;
    vstd::arithmetic::div_mod::lemma_fundamental_div_mod(d.secs as int, 3);
    let b = r * den + fv;
    assert(0 <= b < 3 * den) by (nonlinear_arith)
        requires
            b == r * den + fv,
            0 <= r < 3,
            0 < den,
            0 <= fv < den,
    ;
    assert(d.secs * den + fv == (3 * den) * q + b) by (nonlinear_arith)
        requires
            d.secs == 3 * q + r,
            b == r * den + fv,
    ;
    vstd::arithmetic::div_mod::lemma_div_multiples_vanish_fancy(q, b, 3 * den);
}

/// The capture gap, in whole seconds, between two sampled frames of a video
/// of duration `d`: the duration divided by three, rounded down.  Because the
/// fractional part of `d` is below one, only the whole seconds matter (see
/// `lemma_gap_is_floor_of_third`).
pub fn get_capture_gap(d: &Duration) -> (gap: u64)
    ensures
        gap == d.secs / 3,
{
    d.secs / 3
}

/// Whether `c` is one of the whitespace characters the probe's output can
/// carry around its values.
pub open spec fn is_ws(c: char) -> bool {
    c == ' ' || c == '\t' || c == '\n' || c == '\r'
}

/// `s` without leading whitespace.
pub open spec fn trim_start(s: Seq<char>) -> Seq<char>
    decreases s.len(),
{
    if s.len() > 0 && is_ws(s[0]) {
        trim_start(s.drop_first())
    } else {
        s
    }
}

/// `s` without trailing whitespace.
pub open spec fn trim_end(s: Seq<char>) -> Seq<char>
    decreases s.len(),
{
    if s.len() > 0 && is_ws(s.last()) {
        trim_end(s.drop_last())
    } else {
        s
    }
}

/// `s` without leading or trailing whitespace.
pub open spec fn spec_trim(s: Seq<char>) -> Seq<char> {
    trim_end(trim_start(s))
}

/// The index of the first newline in `s`, or `s.len()` if there is none.
pub open spec fn nl_index(s: Seq<char>) -> int
    decreases s.len(),
{
    if s.len() == 0 {
        0
    } else if s[0] == '\n' {
        0
    } else {
        1 + nl_index(s.drop_first())
    }
}

/// `l` without a single trailing carriage return, if it has one.
pub open spec fn strip_cr(l: Seq<char>) -> Seq<char> {
    if l.len() > 0 && l.last() == '\r' {
        l.drop_last()
    } else {
        l
    }
}

/// The lines of `s`: the segments between newlines, each without its
/// trailing carriage return.  Empty input has no lines, and a trailing
/// newline opens no further line.
pub open spec fn lines_of(s: Seq<char>) -> Seq<Seq<char>>
    decreases s.len(),
    via lines_of_decreases
{
    if s.len() == 0 {
        Seq::empty()
    } else {
        let n = nl_index(s);
        if n == s.len() {
            seq![strip_cr(s)]
        } else {
            seq![strip_cr(s.take(n))] + lines_of(s.skip(n + 1))
        }
    }
}

#[via_fn]
proof fn lines_of_decreases(s: Seq<char>) {
    lemma_nl_index(s);
}

/// `ls` with every line that already appeared earlier removed; first
/// occurrences keep their order.
pub open spec fn dedup_of(ls: Seq<Seq<char>>) -> Seq<Seq<char>>
    decreases ls.len(),
{
    if ls.len() == 0 {
        Seq::empty()
    } else if ls.drop_last().contains(ls.last()) {
        dedup_of(ls.drop_last())
    } else {
        dedup_of(ls.drop_last()) + seq![ls.last()]
    }
}

/// The last line that parses as an RFC 3339 timestamp, as its UTC calendar
/// fields.
pub open spec fn last_date(ls: Seq<Seq<char>>) -> Option<(int, int, int, int, int, int)>
    decreases ls.len(),
{
    if ls.len() == 0 {
        None::<(int, int, int, int, int, int)>
    } else if crate::trusted::rfc3339_utc_of(ls.last()) is Some {
        crate::trusted::rfc3339_utc_of(ls.last())
    } else {
        last_date(ls.drop_last())
    }
}

/// The last line that is not a timestamp but parses as a decimal duration.
pub open spec fn last_duration_line(ls: Seq<Seq<char>>) -> Option<Seq<char>>
    decreases ls.len(),
{
    if ls.len() == 0 {
        None::<Seq<char>>
    } else if crate::trusted::rfc3339_utc_of(ls.last()) is None && parses_as_duration(ls.last()) {
        Some(ls.last())
    } else {
        last_duration_line(ls.drop_last())
    }
}

/// What the probe's deduplicated lines denote: one timestamp tried first on
/// each line, one duration tried second, the last successful parse of each
/// kind winning.
pub open spec fn spec_probe_metadata(lines: Seq<Seq<char>>, m: ProbeMetadata) -> bool {
    &&& (match m.creation {
        Some(t) => last_date(lines) == Some(
            (
                t.year as int,
                t.month as int,
                t.day as int,
                t.hour as int,
                t.minute as int,
                t.second as int,
            ),
        ) && t.wf(),
        None => last_date(lines) is None,
    })
    &&& (match m.duration {
        Some(d) => {
            &&& last_duration_line(lines) matches Some(line)
            &&& spec_parse_duration(line, d)
            &&& d.wf()
        },
        None => last_duration_line(lines) is None,
    })
}

/// The two values the metadata probe can yield for one file.
pub struct ProbeMetadata {
    /// The video's duration, if one line carried a parseable one.
    pub duration: Option<Duration>,
    /// The video's creation timestamp, if one line carried a parseable one.
    pub creation: Option<Timestamp>,
}

/// The deduplicated views of a list of character vectors.
pub open spec fn views_of(ls: Seq<Vec<char>>) -> Seq<Seq<char>> {
    ls.map_values(|v: Vec<char>| v@)
}

/// `s` with leading and trailing whitespace removed.
fn trim_ws(s: &Vec<char>) -> (r: Vec<char>)
    ensures
        r@ == spec_trim(s@),
{
    proof {
        assert(s@.skip(0) =~= s@);
    }
    let mut a: usize = 0;
    while a < s.len() && (s[a] == ' ' || s[a] == '\t' || s[a] == '\n' || s[a] == '\r')
        invariant
            a <= s@.len(),
            trim_start(s@) == trim_start(s@.skip(a as int)),
        decreases s@.len() - a,
    {
        proof {
            assert(s@.skip(a as int).drop_first() =~= s@.skip(a + 1 as int));
        }
        a = a + 1;
    }
    proof {
        if a < s@.len() {
            assert(trim_start(s@) =~= s@.skip(a as int));
        } else {
            assert(s@.skip(a as int) =~= Seq::<char>::empty());
            assert(trim_start(s@) =~= s@.skip(a as int));
        }
    }
    let ghost st = s@.skip(a as int);
    proof {
        assert(s@.skip(a as int).take(s@.len() - a) =~= st);
    }
    let mut b: usize = s.len();
    while b > a && (s[b - 1] == ' ' || s[b - 1] == '\t' || s[b - 1] == '\n' || s[b - 1] == '\r')
        invariant
            a <= b <= s@.len(),
            trim_end(st) == trim_end(s@.skip(a as int).take(b - a)),
        decreases b,
    {
        proof {
            assert(s@.skip(a as int).take(b - a).last() == s@[b - 1]);
            assert(s@.skip(a as int).take(b - a).drop_last() =~= s@.skip(a as int).take(
                b - 1 - a,
            ));
        }
        b = b - 1;
    }
    proof {
        let kept = s@.skip(a as int).take(b - a);
        if b > a {
            assert(kept.last() == s@[b - 1]);
            assert(trim_end(kept) =~= kept);
        } else {
            assert(kept =~= Seq::<char>::empty());
            assert(trim_end(kept) =~= kept);
        }
    }
    let mut out: Vec<char> = Vec::new();
    let mut i: usize = a;
    while i < b
        invariant
            a <= i <= b <= s@.len(),
            out@ =~= s@.skip(a as int).take(i - a),
        decreases b - i,
    {
        out.push(s[i]);
        i = i + 1;
    }
    out
}

/// The lines of `s`, split on newlines, each without a trailing carriage
/// return.
#[verifier::loop_isolation(false)]
fn split_lines(s: &Vec<char>) -> (r: Vec<Vec<char>>)
    ensures
        views_of(r@) == lines_of(s@),
{
    let mut out: Vec<Vec<char>> = Vec::new();
    proof {
        assert(s@.skip(0) =~= s@);
        assert(views_of(Seq::<Vec<char>>::empty()) + lines_of(s@) =~= lines_of(s@));
    }
    let mut i: usize = 0;
    while i < s.len()
        invariant
            i <= s@.len(),
            lines_of(s@) =~= views_of(out@) + lines_of(s@.skip(i as int)),
        decreases s@.len() - i,
    {
        let ghost rest = s@.skip(i as int);
        // Find the end of the current line.
        let mut j: usize = i;
        while j < s.len() && s[j] != '\n'
            invariant
                i <= j <= s@.len(),
                forall|k: int| i <= k < j ==> s@[k] != '\n',
            decreases s@.len() - j,
        {
            j = j + 1;
        }
        proof {
            lemma_nl_index(rest);
            if nl_index(rest) < j - i {
                assert(rest[nl_index(rest)] == s@[i + nl_index(rest)]);
            }
            if nl_index(rest) > j - i && j < s@.len() {
                assert(rest[j - i] == s@[j as int]);
            }
            assert(nl_index(rest) == j - i);
        }
        // Collect the line, dropping a trailing carriage return.
        let end = if j > i && s[j - 1] == '\r' {
            j - 1
        } else {
            j
        };
        let mut line: Vec<char> = Vec::new();
        let mut k: usize = i;
        while k < end
            invariant
                i <= k <= end <= s@.len(),
                line@ =~= s@.subrange(i as int, k as int),
            decreases end - k,
        {
            line.push(s[k]);
            k = k + 1;
        }
        proof {
            let seg = if j - i == rest.len() {
                rest
            } else {
                rest.take(j - i)
            };
            assert(rest.take(j - i) =~= s@.subrange(i as int, j as int));
            if j < s@.len() {
                assert(seg =~= s@.subrange(i as int, j as int));
            } else {
                assert(seg =~= s@.subrange(i as int, j as int));
            }
            if j > i && s@[j - 1] == '\r' {
                assert(seg.last() == '\r');
                assert(line@ =~= seg.drop_last());
                assert(line@ =~= strip_cr(seg));
            } else {
                assert(line@ =~= strip_cr(seg));
            }
            if j < s@.len() {
                assert(rest.skip(j - i + 1) =~= s@.skip(j + 1 as int));
            } else {
                assert(s@.skip(j as int) =~= Seq::<char>::empty());
                assert(lines_of(s@.skip(j as int)) =~= Seq::<Seq<char>>::empty());
            }
        }
        out.push(line);
        proof {
            assert(views_of(out@) =~= views_of(out@.drop_last()) + seq![line@]);
        }
        if j < s.len() {
            i = j + 1;
        } else {
            i = j;
        }
    }
    proof {
        assert(s@.skip(i as int) =~= Seq::<char>::empty());
    }
    out
}

proof fn lemma_nl_index(s: Seq<char>)
    ensures
        0 <= nl_index(s) <= s.len(),
        forall|j: int| 0 <= j < nl_index(s) ==> s[j] != '\n',
        nl_index(s) < s.len() ==> s[nl_index(s)] == '\n',
    decreases s.len(),
{
    if s.len() == 0 {
    } else if s[0] == '\n' {
    } else {
        lemma_nl_index(s.drop_first());
        assert forall|j: int| 0 <= j < nl_index(s) implies s[j] != '\n' by {
            if j > 0 {
                assert(s[j] == s.drop_first()[j - 1]);
            }
        }
        if nl_index(s) < s.len() {
            assert(s[nl_index(s)] == s.drop_first()[nl_index(s) - 1]);
        }
    }
}

/// Whether two character vectors hold the same characters.
fn eq_chars(a: &Vec<char>, b: &Vec<char>) -> (r: bool)
    ensures
        r == (a@ == b@),
{
    if a.len() != b.len() {
        proof {
            assert(a@.len() != b@.len());
        }
        return false;
    }
    let mut i: usize = 0;
    while i < a.len()
        invariant
            i <= a@.len(),
            a@.len() == b@.len(),
            forall|j: int| 0 <= j < i ==> a@[j] == b@[j],
        decreases a@.len() - i,
    {
        if a[i] != b[i] {
            return false;
        }
        i = i + 1;
    }
    proof {
        assert(a@ =~= b@);
    }
    true
}

/// Whether some vector in `ls` holds the characters of `l`.
fn contains_line(ls: &Vec<Vec<char>>, l: &Vec<char>) -> (r: bool)
    ensures
        r == views_of(ls@).contains(l@),
{
    let mut i: usize = 0;
    while i < ls.len()
        invariant
            i <= ls@.len(),
            forall|j: int| 0 <= j < i ==> views_of(ls@)[j] != l@,
        decreases ls@.len() - i,
    {
        if eq_chars(&ls[i], l) {
            proof {
                assert(views_of(ls@)[i as int] == l@);
            }
            return true;
        }
        i = i + 1;
    }
    proof {
        if views_of(ls@).contains(l@) {
            let j = choose|j: int| 0 <= j < views_of(ls@).len() && views_of(ls@)[j] == l@;
            assert(views_of(ls@)[j] != l@);
        }
    }
    false
}

/// `ls` with every repeated line removed; first occurrences keep their
/// order.
fn dedup_lines(ls: Vec<Vec<char>>) -> (r: Vec<Vec<char>>)
    ensures
        views_of(r@) == dedup_of(views_of(ls@)),
{
    let mut out: Vec<Vec<char>> = Vec::new();
    let mut i: usize = 0;
    while i < ls.len()
        invariant
            i <= ls@.len(),
            views_of(out@) =~= dedup_of(views_of(ls@).take(i as int)),
        decreases ls@.len() - i,
    {
        proof {
            let pre = views_of(ls@).take(i + 1 as int);
            assert(pre.drop_last() =~= views_of(ls@).take(i as int));
            assert(pre.last() == ls@[i as int]@);
        }
        if !contains_line(&out, &ls[i]) {
            proof {
                if views_of(ls@).take(i as int).contains(ls@[i as int]@) {
                    let j = choose|j: int|
                        0 <= j < i && views_of(ls@).take(i as int)[j] == ls@[i as int]@;
                    lemma_dedup_keeps(views_of(ls@).take(i as int), j);
                }
            }
            let line = ls[i].clone();
            out.push(line);
            proof {
                assert(views_of(out@) =~= views_of(out@.drop_last()) + seq![
                    out@.last()@,
                ]);
            }
        } else {
            proof {
                let j = choose|j: int|
                    0 <= j < views_of(out@).len() && views_of(out@)[j] == ls@[i as int]@;
                lemma_dedup_sound(views_of(ls@).take(i as int));
                assert(views_of(ls@).take(i as int).contains(ls@[i as int]@));
            }
        }
        i = i + 1;
    }
    proof {
        assert(views_of(ls@).take(ls@.len() as int) =~= views_of(ls@));
    }
    out
}

/// A line kept by deduplication occurred in the input.
proof fn lemma_dedup_sound(ls: Seq<Seq<char>>)
    ensures
        forall|j: int|
            0 <= j < dedup_of(ls).len() ==> #[trigger] ls.contains(dedup_of(ls)[j]),
    decreases ls.len(),
{
    if ls.len() > 0 {
        lemma_dedup_sound(ls.drop_last());
        assert forall|j: int| 0 <= j < dedup_of(ls).len() implies #[trigger] ls.contains(
            dedup_of(ls)[j],
        ) by {
            if j < dedup_of(ls.drop_last()).len() {
                assert(ls.drop_last().contains(dedup_of(ls.drop_last())[j]));
                let k = choose|k: int|
                    0 <= k < ls.drop_last().len() && ls.drop_last()[k] == dedup_of(
                        ls.drop_last(),
                    )[j];
                assert(ls[k] == dedup_of(ls)[j]);
            } else {
                assert(dedup_of(ls)[j] == ls.last());
                assert(ls[ls.len() - 1] == ls.last());
            }
        }
    }
}

/// A line that occurred in the input is kept by deduplication.
proof fn lemma_dedup_keeps(ls: Seq<Seq<char>>, j: int)
    requires
        0 <= j < ls.len(),
    ensures
        dedup_of(ls).contains(ls[j]),
    decreases ls.len(),
{
    if j == ls.len() - 1 {
        if ls.drop_last().contains(ls.last()) {
            let k = choose|k: int|
                0 <= k < ls.drop_last().len() && ls.drop_last()[k] == ls.last();
            lemma_dedup_keeps(ls.drop_last(), k);
            let m = choose|m: int|
                0 <= m < dedup_of(ls.drop_last()).len() && dedup_of(ls.drop_last())[m]
                    == ls.last();
            assert(dedup_of(ls)[m] == ls[j]);
        } else {
            assert(dedup_of(ls)[dedup_of(ls).len() - 1] == ls[j]);
        }
    } else {
        lemma_dedup_keeps(ls.drop_last(), j);
        let m = choose|m: int|
            0 <= m < dedup_of(ls.drop_last()).len() && dedup_of(ls.drop_last())[m]
                == ls.drop_last()[j];
        if ls.drop_last().contains(ls.last()) {
            assert(dedup_of(ls)[m] == ls[j]);
        } else {
            assert(dedup_of(ls)[m] == ls[j]);
        }
    }
}

/// Parses the probe's raw standard output for one file: the output is
/// trimmed, split into lines, duplicate lines are removed keeping first
/// occurrences, and each remaining line is read first as an RFC 3339
/// timestamp and otherwise as a decimal duration, the last successful parse
/// of each kind winning.
#[verifier::loop_isolation(false)]
pub fn parse_probe_output(raw: &str) -> (m: ProbeMetadata)
    ensures
        spec_probe_metadata(dedup_of(lines_of(spec_trim(raw@))), m),
{
    let chars = crate::text::chars_vec(raw);
    let trimmed = trim_ws(&chars);
    let lines = split_lines(&trimmed);
    let uniq = dedup_lines(lines);
    let ghost lv = views_of(uniq@);
    let mut duration: Option<Duration> = None;
    let mut creation: Option<Timestamp> = None;
    let mut i: usize = 0;
    while i < uniq.len()
        invariant
            i <= uniq@.len(),
            match creation {
                Some(t) => last_date(lv.take(i as int)) == Some(
                    (
                        t.year as int,
                        t.month as int,
                        t.day as int,
                        t.hour as int,
                        t.minute as int,
                        t.second as int,
                    ),
                ) && t.wf(),
                None => last_date(lv.take(i as int)) is None,
            },
            match duration {
                Some(d) => {
                    &&& last_duration_line(lv.take(i as int)) matches Some(line)
                    &&& spec_parse_duration(line, d)
                    &&& d.wf()
                },
                None => last_duration_line(lv.take(i as int)) is None,
            },
        decreases uniq@.len() - i,
    {
        proof {
            assert(lv.take(i + 1 as int).drop_last() =~= lv.take(i as int));
            assert(lv.take(i + 1 as int).last() == uniq@[i as int]@);
        }
        let line_str = crate::text::string_from_chars(&uniq[i]);
        match crate::trusted::parse_rfc3339_utc(line_str.as_str()) {
            Some(t) => {
                creation = Some(t);
            },
            None => {
                match parse_duration(&uniq[i]) {
                    Some(d) => {
                        duration = Some(d);
                    },
                    None => {},
                }
            },
        }
        i = i + 1;
    }
    proof {
        assert(lv.take(uniq@.len() as int) =~= lv);
    }
    ProbeMetadata { duration, creation }
}

/// The divisor actually handed to the frame sampler: the capture gap clamped
/// to at least one second, so that a zero or unknown duration still yields a
/// well-formed one-frame-per-second request.
pub fn sampling_divisor(gap: u64) -> (r: u64)
    ensures
        r == if gap == 0 {
            1u64
        } else {
            gap
        },
        r >= 1,
{
    if gap == 0 {
        1
    } else {
        gap
    }
}

} // verus!
