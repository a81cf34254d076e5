use vstd::prelude::*;

use vstd::arithmetic::div_mod::{lemma_breakdown, lemma_small_mod};

use crate::digits::{
    all_digits, bounded_digits, digit_value, digits_value, is_digit, lemma_digits_nonneg,
    parse_digits,
};
use crate::text::{
    find_char, first_index, free_of, is_single_line, lemma_first_index,
    lemma_first_index_concat, lemma_lines_cons, lines, push_char,
};

verus! {

/// Real-valued settings are held in millionths.
pub const SCALE: u64 = 1_000_000;

/// Default speed: 50 pixels per second.
pub const DEFAULT_SPEED: u64 = 50_000_000;

/// Default icon: the first built-in logo.
pub const DEFAULT_ICON: u64 = 0;

/// Default size factor: 0.16 of the viewport.
pub const DEFAULT_SIZE_FACTOR: u64 = 160_000;

pub open spec fn pow10(n: nat) -> int
    decreases n,
{
    if n == 0 {
        1
    } else {
        10 * pow10((n - 1) as nat)
    }
}

pub open spec fn digit_char(d: int) -> char {
    if d == 0 {
        '0'
    } else if d == 1 {
        '1'
    } else if d == 2 {
        '2'
    } else if d == 3 {
        '3'
    } else if d == 4 {
        '4'
    } else if d == 5 {
        '5'
    } else if d == 6 {
        '6'
    } else if d == 7 {
        '7'
    } else if d == 8 {
        '8'
    } else {
        '9'
    }
}

/// The decimal digits of `n`, without leading zeros.
pub open spec fn digits_of(n: nat) -> Seq<char>
    decreases n,
{
    if n < 10 {
        seq![digit_char(n as int)]
    } else {
        digits_of(n / 10).push(digit_char((n % 10) as int))
    }
}

/// The last `w` decimal digits of `n`, with leading zeros.
pub open spec fn padded(n: nat, w: nat) -> Seq<char>
    decreases w,
{
    if w == 0 {
        seq![]
    } else {
        padded(n / 10, (w - 1) as nat).push(digit_char((n % 10) as int))
    }
}

/// A value in millionths as text: the whole part, then, unless it is zero, a point
/// and six fraction digits.
pub open spec fn decimal_text(v: nat) -> Seq<char> {
    if v % 1_000_000 == 0 {
        digits_of(v / 1_000_000)
    } else {
        digits_of(v / 1_000_000) + seq!['.'] + padded(v % 1_000_000, 6)
    }
}

/// Millionths denoted by the fraction digits `f`; digits past the sixth are dropped.
pub open spec fn fraction_value(f: Seq<char>) -> int {
    let k: nat = if f.len() < 6 {
        f.len()
    } else {
        6
    };
    digits_value(f.take(k as int)) * pow10((6 - k) as nat)
}

/// The value in millionths of a decimal number `d`, `d.`-less or `d.f`, when it fits
/// in 64 bits.
pub open spec fn decimal_value(s: Seq<char>) -> Option<int> {
    let p = first_index(s, '.');
    let whole = s.take(p);
    let frac = s.skip(p + 1);
    if whole.len() > 0 && all_digits(whole) && (p == s.len() || (frac.len() > 0 && all_digits(
        frac,
    ))) {
        let v = digits_value(whole) * 1_000_000 + if p == s.len() {
            0
        } else {
            fraction_value(frac)
        };
        if v <= u64::MAX {
            Some(v)
        } else {
            None
        }
    } else {
        None
    }
}

/// An unsigned count: an optional `+`, then digits, at most `u64::MAX`.
pub open spec fn count_value(s: Seq<char>) -> Option<int> {
    if s.len() > 0 && s[0] == '+' {
        bounded_digits(s.skip(1), u64::MAX as int)
    } else {
        bounded_digits(s, u64::MAX as int)
    }
}

proof fn lemma_digit_char(d: int)
    requires
        0 <= d < 10,
    ensures
        is_digit(digit_char(d)),
        digit_value(digit_char(d)) == d,
{
}

proof fn lemma_digits_of(n: nat)
    ensures
        digits_of(n).len() > 0,
        all_digits(digits_of(n)),
        digits_value(digits_of(n)) == n,
    decreases n,
{
    if n < 10 {
        lemma_digit_char(n as int);
        reveal_with_fuel(digits_value, 2);
        assert(digits_of(n).drop_last() =~= seq![]);
    } else {
        lemma_digits_of(n / 10);
        lemma_digit_char((n % 10) as int);
        let s = digits_of(n);
        assert(s.drop_last() =~= digits_of(n / 10));
        assert(s.last() == digit_char((n % 10) as int));
        assert(n == (n / 10) * 10 + n % 10);
        assert forall|i: int| 0 <= i < s.len() implies is_digit(#[trigger] s[i]) by {
            if i < s.len() - 1 {
                assert(s[i] == digits_of(n / 10)[i]);
            }
        }
    }
}

proof fn lemma_padded(n: nat, w: nat)
    ensures
        padded(n, w).len() == w,
        all_digits(padded(n, w)),
        digits_value(padded(n, w)) == n % (pow10(w) as nat),
        pow10(w) > 0,
    decreases w,
{
    if w == 0 {
        assert(padded(n, w) =~= seq![]);
    } else {
        let w1 = (w - 1) as nat;
        lemma_padded(n / 10, w1);
        lemma_digit_char((n % 10) as int);
        let s = padded(n, w);
        assert(s.drop_last() =~= padded(n / 10, w1));
        assert forall|i: int| 0 <= i < s.len() implies is_digit(#[trigger] s[i]) by {
            if i < s.len() - 1 {
                assert(s[i] == padded(n / 10, w1)[i]);
            }
        }
        lemma_breakdown(n as int, 10, pow10(w1));
        assert(pow10(w) == 10 * pow10(w1));
    }
}

proof fn lemma_digits_free(s: Seq<char>, c: char)
    requires
        all_digits(s),
        !is_digit(c),
    ensures
        free_of(s, c),
{
    assert forall|j: int| 0 <= j < s.len() implies #[trigger] s[j] != c by {
        assert(is_digit(s[j]));
    }
}

/// A number written by `decimal_text` reads back as itself.
pub proof fn lemma_decimal_round_trip(v: u64)
    ensures
        decimal_value(decimal_text(v as nat)) == Some(v as int),
        is_single_line(decimal_text(v as nat)),
{
    let q = (v / 1_000_000) as nat;
    let r = (v % 1_000_000) as nat;
    lemma_digits_of(q);
    let d = digits_of(q);
    let t = decimal_text(v as nat);
    lemma_digits_free(d, '.');
    lemma_digits_free(d, '\n');
    if r == 0 {
        lemma_first_index(d, '.', d.len() as int);
        assert(d.take(d.len() as int) =~= d);
        assert(t == d);
        assert(d.last() != '\r') by {
            assert(is_digit(d[d.len() - 1]));
        }
    } else {
        let f = padded(r, 6);
        lemma_padded(r, 6);
        reveal_with_fuel(pow10, 7);
        assert(pow10(6) == 1_000_000);
        assert(pow10(0) == 1);
        assert(r < 1_000_000);
        lemma_small_mod(r, pow10(6) as nat);
        lemma_first_index_concat(d, seq!['.'] + f, '.');
        assert(t =~= d + (seq!['.'] + f));
        assert(t.take(d.len() as int) =~= d);
        assert(t.skip(d.len() as int + 1) =~= f);
        assert(f.take(6) =~= f);
        assert(digits_value(f.take(6)) == r);
        assert(fraction_value(f) == digits_value(f.take(6)) * pow10(0));
        assert(fraction_value(f) == r);
        assert forall|j: int| 0 <= j < t.len() implies #[trigger] t[j] != '\n' by {
            if j < d.len() {
                assert(t[j] == d[j]);
            } else if j > d.len() {
                assert(t[j] == f[j - d.len() - 1]);
                assert(is_digit(f[j - d.len() - 1]));
            }
        }
        assert(t.last() == f[5]);
        assert(is_digit(f[5]));
    }
}

/// A count written as its digits reads back as itself.
pub proof fn lemma_count_round_trip(n: u64)
    ensures
        count_value(digits_of(n as nat)) == Some(n as int),
        is_single_line(digits_of(n as nat)),
{
    let d = digits_of(n as nat);
    lemma_digits_of(n as nat);
    lemma_digits_free(d, '\n');
    assert(is_digit(d[0]));
    assert(is_digit(d[d.len() - 1]));
}

/// `w * SCALE + f` fits in 64 bits exactly when `w` is at most `(u64::MAX - f) / SCALE`.
proof fn lemma_scaled_fits(w: int, f: int)
    requires
        0 <= w,
        0 <= f < 1_000_000,
    ensures
        (w <= (u64::MAX - f) / 1_000_000) == (w * 1_000_000 + f <= u64::MAX),
{
    assert((w <= (u64::MAX - f) / 1_000_000) == (w * 1_000_000 + f <= u64::MAX))
        by (nonlinear_arith)
        requires
            0 <= w,
            0 <= f < 1_000_000,
    ;
}

/// Reads the fraction digits `start..end` of `s` as millionths, dropping digits past
/// the sixth.
fn parse_fraction(s: &str, start: usize, end: usize) -> (r: Option<u64>)
    requires
        start <= end <= s@.len(),
    ensures
        r == (if start < end && all_digits(s@.subrange(start as int, end as int)) {
            Some(fraction_value(s@.subrange(start as int, end as int)) as u64)
        } else {
            None
        }),
        r matches Some(v) ==> v < SCALE && v as int == fraction_value(
            s@.subrange(start as int, end as int),
        ),
{
    if start == end {
        return None;
    }
    let ghost sub = s@.subrange(start as int, end as int);
    let mut acc: u64 = 0;
    let mut used: usize = 0;
    let mut i: usize = start;
    while i < end
        invariant
            start <= i <= end <= s@.len(),
            sub == s@.subrange(start as int, end as int),
            used == (if i - start < 6 {
                i - start
            } else {
                6
            }),
            acc as int == digits_value(sub.take(used as int)),
            acc < pow10(used as nat),
            all_digits(sub.take(i - start)),
        decreases end - i,
    {
        let c = s.get_char(i);
        assert(sub[i - start] == c);
        if !('0' <= c && c <= '9') {
            return None;
        }
        assert(sub.take(i + 1 - start) =~= sub.take(i - start).push(c));
        if used < 6 {
            let d: u64 = (c as u32 - '0' as u32) as u64;
            let ghost next = sub.take(used + 1);
            assert(next.drop_last() =~= sub.take(used as int));
            assert(next.last() == c);
            assert(acc * 10 + d < 10 * pow10(used as nat)) by (nonlinear_arith)
                requires
                    acc < pow10(used as nat),
                    d < 10,
            ;
            assert(pow10((used + 1) as nat) == 10 * pow10(used as nat));
            reveal_with_fuel(pow10, 7);
            acc = acc * 10 + d;
            used = used + 1;
        }
        i = i + 1;
    }
    assert(sub.take(i - start) =~= sub);
    let ghost base = acc as int;
    assert(pow10(0) == 1);
    assert(base * pow10(0) == base);
    let mut k: usize = used;
    while k < 6
        invariant
            used <= k <= 6,
            acc as int == base * pow10((k - used) as nat),
            acc < pow10(k as nat),
            base >= 0,
        decreases 6 - k,
    {
        assert(pow10((k + 1) as nat) == 10 * pow10(k as nat));
        assert(pow10((k + 1 - used) as nat) == 10 * pow10((k - used) as nat));
        assert(acc * 10 == base * pow10((k + 1 - used) as nat)) by (nonlinear_arith)
            requires
                acc as int == base * pow10((k - used) as nat),
                pow10((k + 1 - used) as nat) == 10 * pow10((k - used) as nat),
        ;
        reveal_with_fuel(pow10, 7);
        acc = acc * 10;
        k = k + 1;
    }
    reveal_with_fuel(pow10, 7);
    Some(acc)
}

/// Reads the characters `start..end` of `s` as a decimal number, in millionths.
pub fn parse_decimal(s: &str, start: usize, end: usize) -> (r: Option<u64>)
    requires
        start <= end <= s@.len(),
    ensures
        r == (match decimal_value(s@.subrange(start as int, end as int)) {
            Some(v) => Some(v as u64),
            None => None,
        }),
        r is None <==> decimal_value(s@.subrange(start as int, end as int)) is None,
        r matches Some(v) ==> decimal_value(s@.subrange(start as int, end as int)) == Some(
            v as int,
        ),
{
    let ghost sub = s@.subrange(start as int, end as int);
    let p = find_char(s, start, end, '.');
    if p == end {
        assert(sub.take(p - start) =~= sub);
        match parse_digits(s, start, end, u64::MAX / SCALE) {
            Some(w) => {
                proof {
                    lemma_scaled_fits(w as int, 0);
                }
                Some(w * SCALE)
            },
            None => {
                proof {
                    if sub.len() > 0 && all_digits(sub) {
                        lemma_digits_nonneg(sub);
                        lemma_scaled_fits(digits_value(sub), 0);
                    }
                }
                None
            },
        }
    } else {
        assert(sub.take(p - start) =~= s@.subrange(start as int, p as int));
        assert(sub.skip(p - start + 1) =~= s@.subrange(p + 1, end as int));
        match parse_fraction(s, p + 1, end) {
            None => None,
            Some(f) => {
                let ghost whole = s@.subrange(start as int, p as int);
                match parse_digits(s, start, p, (u64::MAX - f) / SCALE) {
                    Some(w) => {
                        proof {
                            lemma_scaled_fits(w as int, f as int);
                        }
                        Some(w * SCALE + f)
                    },
                    None => {
                        proof {
                            if whole.len() > 0 && all_digits(whole) {
                                lemma_digits_nonneg(whole);
                                lemma_scaled_fits(digits_value(whole), f as int);
                            }
                        }
                        None
                    },
                }
            },
        }
    }
}

/// Reads the characters `start..end` of `s` as an unsigned count.
pub fn parse_count(s: &str, start: usize, end: usize) -> (r: Option<u64>)
    requires
        start <= end <= s@.len(),
    ensures
        r == (match count_value(s@.subrange(start as int, end as int)) {
            Some(v) => Some(v as u64),
            None => None,
        }),
        r is None <==> count_value(s@.subrange(start as int, end as int)) is None,
        r matches Some(v) ==> count_value(s@.subrange(start as int, end as int)) == Some(v as int),
{
    let ghost sub = s@.subrange(start as int, end as int);
    if start < end && s.get_char(start) == '+' {
        assert(sub.skip(1) =~= s@.subrange(start + 1, end as int));
        parse_digits(s, start + 1, end, u64::MAX)
    } else {
        parse_digits(s, start, end, u64::MAX)
    }
}

/// Line `k` of `t`, if there is one.
pub open spec fn line_of(t: Seq<char>, k: int) -> Option<Seq<char>> {
    if 0 <= k < lines(t).len() {
        Some(lines(t)[k])
    } else {
        None
    }
}

pub open spec fn decimal_or(l: Option<Seq<char>>, d: int) -> int {
    match l {
        Some(x) => match decimal_value(x) {
            Some(v) => v,
            None => d,
        },
        None => d,
    }
}

pub open spec fn count_or(l: Option<Seq<char>>, d: int) -> int {
    match l {
        Some(x) => match count_value(x) {
            Some(v) => v,
            None => d,
        },
        None => d,
    }
}

/// Speed read from a settings text: its first line, else the default.
pub open spec fn loaded_speed(t: Seq<char>) -> int {
    decimal_or(line_of(t, 0), DEFAULT_SPEED as int)
}

/// Icon read from a settings text: its second line, else the default.
pub open spec fn loaded_icon(t: Seq<char>) -> int {
    count_or(line_of(t, 1), DEFAULT_ICON as int)
}

/// Size factor read from a settings text: its third line, else the default.
pub open spec fn loaded_size(t: Seq<char>) -> int {
    decimal_or(line_of(t, 2), DEFAULT_SIZE_FACTOR as int)
}

/// Custom image path read from a settings text: its fourth line, else empty.
pub open spec fn loaded_path(t: Seq<char>) -> Seq<char> {
    match line_of(t, 3) {
        Some(l) => l,
        None => seq![],
    }
}

/// The settings text of a record: one field per line, each line ended by `\n`.
pub open spec fn config_text(speed: u64, icon: u64, size: u64, path: Seq<char>) -> Seq<char> {
    decimal_text(speed as nat) + seq!['\n'] + digits_of(icon as nat) + seq!['\n'] + decimal_text(
        size as nat,
    ) + seq!['\n'] + path + seq!['\n']
}

/// The saver's settings. Speed (pixels per second) and size factor (fraction of
/// the viewport) are held in millionths.
#[derive(Debug, Clone, PartialEq, Eq)]
pub struct ConfigRecord {
    pub speed: u64,
    pub icon_index: u64,
    pub size_factor: u64,
    pub custom_image_path: String,
}

fn digit(d: u64) -> (c: char)
    requires
        d < 10,
    ensures
        c == digit_char(d as int),
{
    if d == 0 {
        '0'
    } else if d == 1 {
        '1'
    } else if d == 2 {
        '2'
    } else if d == 3 {
        '3'
    } else if d == 4 {
        '4'
    } else if d == 5 {
        '5'
    } else if d == 6 {
        '6'
    } else if d == 7 {
        '7'
    } else if d == 8 {
        '8'
    } else {
        '9'
    }
}

fn push_digits(out: &mut String, n: u64)
    ensures
        final(out)@ == old(out)@ + digits_of(n as nat),
    decreases n,
{
    if n >= 10 {
        push_digits(out, n / 10);
    }
    push_char(out, digit(n % 10));
    assert(final(out)@ =~= old(out)@ + digits_of(n as nat));
}

fn push_padded(out: &mut String, n: u64, w: u64)
    ensures
        final(out)@ == old(out)@ + padded(n as nat, w as nat),
    decreases w,
{
    if w > 0 {
        push_padded(out, n / 10, w - 1);
        push_char(out, digit(n % 10));
    }
    assert(final(out)@ =~= old(out)@ + padded(n as nat, w as nat));
}

fn push_decimal(out: &mut String, v: u64)
    ensures
        final(out)@ == old(out)@ + decimal_text(v as nat),
{
    push_digits(out, v / SCALE);
    if v % SCALE != 0 {
        push_char(out, '.');
        push_padded(out, v % SCALE, 6);
    }
    assert(final(out)@ =~= old(out)@ + decimal_text(v as nat));
}

/// The line that starts at `pos`: where its text ends, and where the next one starts.
fn next_line(s: &str, pos: usize) -> (r: (usize, usize))
    requires
        pos < s@.len(),
    ensures
        pos <= r.0 <= r.1 <= s@.len(),
        pos < r.1,
        lines(s@.skip(pos as int)) == seq![s@.subrange(pos as int, r.0 as int)] + lines(
            s@.skip(r.1 as int),
        ),
{
    let n = s.unicode_len();
    let e = find_char(s, pos, n, '\n');
    let ghost t = s@.skip(pos as int);
    assert(s@.subrange(pos as int, n as int) =~= t);
    assert(t.take(e - pos) =~= s@.subrange(pos as int, e as int));
    if e < n {
        assert(t.skip(e - pos + 1) =~= s@.skip(e + 1));
        let text_end = if e > pos && s.get_char(e - 1) == '\r' {
            e - 1
        } else {
            e
        };
        assert(s@.subrange(pos as int, text_end as int) =~= crate::text::strip_cr(
            s@.subrange(pos as int, e as int),
        ));
        (text_end, e + 1)
    } else {
        assert(s@.skip(n as int) =~= seq![]);
        assert(lines(s@.skip(n as int)) =~= seq![]);
        assert(seq![t] + seq![] =~= seq![t]);
        (n, n)
    }
}

/// The bounds of the first `count` lines of `s`, or of all of them if fewer.
fn first_lines(s: &str, count: usize) -> (r: Vec<(usize, usize)>)
    ensures
        r.len() == (if lines(s@).len() < count {
            lines(s@).len()
        } else {
            count as nat
        }),
        forall|k: int|
            0 <= k < r.len() ==> r[k].0 <= r[k].1 <= s@.len() && s@.subrange(
                r[k].0 as int,
                #[trigger] r[k].1 as int,
            ) == lines(s@)[k],
{
    let n = s.unicode_len();
    let mut r: Vec<(usize, usize)> = Vec::new();
    let ghost got: Seq<Seq<char>> = seq![];
    let mut pos: usize = 0;
    assert(s@.skip(0) =~= s@);
    while r.len() < count && pos < n
        invariant
            pos <= n == s@.len(),
            r.len() <= count,
            got.len() == r.len(),
            lines(s@) == got + lines(s@.skip(pos as int)),
            forall|k: int|
                0 <= k < r.len() ==> r[k].0 <= r[k].1 <= s@.len() && s@.subrange(
                    r[k].0 as int,
                    #[trigger] r[k].1 as int,
                ) == got[k],
        decreases n - pos,
    {
        let (text_end, next) = next_line(s, pos);
        proof {
            let l = s@.subrange(pos as int, text_end as int);
            assert(got + lines(s@.skip(pos as int)) =~= got.push(l) + lines(s@.skip(next as int)));
            got = got.push(l);
        }
        r.push((pos, text_end));
        pos = next;
    }
    if pos == n {
        assert(s@.skip(n as int) =~= seq![]);
        assert(lines(s@.skip(n as int)) =~= seq![]);
        assert(lines(s@) =~= got);
    }
    r
}

impl ConfigRecord {
    /// The settings used when none are stored: 50 pixels per second, the first
    /// built-in logo, size factor 0.16, no custom path.
    pub fn default_record() -> (r: ConfigRecord)
        ensures
            r.speed == DEFAULT_SPEED,
            r.icon_index == DEFAULT_ICON,
            r.size_factor == DEFAULT_SIZE_FACTOR,
            r.custom_image_path@ == Seq::<char>::empty(),
    {
        ConfigRecord {
            speed: DEFAULT_SPEED,
            icon_index: DEFAULT_ICON,
            size_factor: DEFAULT_SIZE_FACTOR,
            custom_image_path: String::new(),
        }
    }

    /// Reads a settings text. Each field that is missing or does not parse takes its
    /// default.
    pub fn from_text(text: &str) -> (r: ConfigRecord)
        ensures
            r.speed == loaded_speed(text@),
            r.icon_index == loaded_icon(text@),
            r.size_factor == loaded_size(text@),
            r.custom_image_path@ == loaded_path(text@),
    {
        let found = first_lines(text, 4);
        let speed = if found.len() > 0 {
            match parse_decimal(text, found[0].0, found[0].1) {
                Some(v) => v,
                None => DEFAULT_SPEED,
            }
        } else {
            DEFAULT_SPEED
        };
        let icon_index = if found.len() > 1 {
            assert(text@.subrange(found[1].0 as int, found[1].1 as int) == lines(text@)[1]);
            match parse_count(text, found[1].0, found[1].1) {
                Some(v) => v,
                None => DEFAULT_ICON,
            }
        } else {
            DEFAULT_ICON
        };
        let size_factor = if found.len() > 2 {
            assert(text@.subrange(found[2].0 as int, found[2].1 as int) == lines(text@)[2]);
            match parse_decimal(text, found[2].0, found[2].1) {
                Some(v) => v,
                None => DEFAULT_SIZE_FACTOR,
            }
        } else {
            DEFAULT_SIZE_FACTOR
        };
        let custom_image_path = if found.len() > 3 {
            assert(text@.subrange(found[3].0 as int, found[3].1 as int) == lines(text@)[3]);
            String::from_str(text.substring_char(found[3].0, found[3].1))
        } else {
            String::new()
        };
        ConfigRecord { speed, icon_index, size_factor, custom_image_path }
    }

    /// The settings as text, in the form that `from_text` reads.
    pub fn to_text(&self) -> (t: String)
        ensures
            t@ == config_text(
                self.speed,
                self.icon_index,
                self.size_factor,
                self.custom_image_path@,
            ),
    {
        let mut out = String::new();
        push_decimal(&mut out, self.speed);
        push_char(&mut out, '\n');
        push_digits(&mut out, self.icon_index);
        push_char(&mut out, '\n');
        push_decimal(&mut out, self.size_factor);
        push_char(&mut out, '\n');
        out.append(self.custom_image_path.as_str());
        push_char(&mut out, '\n');
        assert(out@ =~= config_text(
            self.speed,
            self.icon_index,
            self.size_factor,
            self.custom_image_path@,
        ));
        out
    }
}

/// Saving a record and reading the text back gives the same record, for every
/// record whose path fits on one line.
pub proof fn lemma_config_round_trip(r: ConfigRecord)
    requires
        is_single_line(r.custom_image_path@),
    ensures
        loaded_speed(config_text(r.speed, r.icon_index, r.size_factor, r.custom_image_path@))
            == r.speed,
        loaded_icon(config_text(r.speed, r.icon_index, r.size_factor, r.custom_image_path@))
            == r.icon_index,
        loaded_size(config_text(r.speed, r.icon_index, r.size_factor, r.custom_image_path@))
            == r.size_factor,
        loaded_path(config_text(r.speed, r.icon_index, r.size_factor, r.custom_image_path@))
            == r.custom_image_path@,
{
    let a = decimal_text(r.speed as nat);
    let b = digits_of(r.icon_index as nat);
    let c = decimal_text(r.size_factor as nat);
    let p = r.custom_image_path@;
    let nl = seq!['\n'];
    let t = config_text(r.speed, r.icon_index, r.size_factor, p);
    lemma_decimal_round_trip(r.speed);
    lemma_count_round_trip(r.icon_index);
    lemma_decimal_round_trip(r.size_factor);
    let e = Seq::<char>::empty();
    let r3 = p + nl + e;
    let r2 = c + nl + r3;
    let r1 = b + nl + r2;
    assert(t =~= a + nl + r1);
    assert(p + nl =~= r3);
    lemma_lines_cons(a, r1);
    lemma_lines_cons(b, r2);
    lemma_lines_cons(c, r3);
    lemma_lines_cons(p, e);
    assert(lines(e) =~= seq![]);
    assert(lines(t) =~= seq![a, b, c, p]);
}

/// A text none of whose lines holds a readable value, and with no fourth line for a
/// path, is read as the default record.
pub proof fn lemma_unreadable_text_gives_defaults(t: Seq<char>)
    requires
        lines(t).len() <= 3,
        lines(t).len() > 0 ==> decimal_value(lines(t)[0]) is None,
        lines(t).len() > 1 ==> count_value(lines(t)[1]) is None,
        lines(t).len() > 2 ==> decimal_value(lines(t)[2]) is None,
    ensures
        loaded_speed(t) == DEFAULT_SPEED,
        loaded_icon(t) == DEFAULT_ICON,
        loaded_size(t) == DEFAULT_SIZE_FACTOR,
        loaded_path(t) == Seq::<char>::empty(),
{
}

} // verus!
