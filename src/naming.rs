use vstd::prelude::*;
use vstd::string::StrSliceExecFns;
use vstd::string::StringExecFns;

use chrono::Datelike;
use chrono::Timelike;

use crate::error::joined;

verus! {

broadcast use vstd::string::group_string_axioms;

/// A local wall-clock time to the second.
#[derive(Clone, Copy, PartialEq, Eq, Structural)]
pub struct Timestamp {
    pub year: i32,
    pub month: u32,
    pub day: u32,
    pub hour: u32,
    pub minute: u32,
    pub second: u32,
}

impl Timestamp {
    /// Every field within its calendar range.
    pub open spec fn wf(&self) -> bool {
        &&& 1 <= self.month <= 12
        &&& 1 <= self.day <= 31
        &&& self.hour < 24
        &&& self.minute < 60
        &&& self.second < 60
    }
}

/// Relies on chrono's `Local::now` and its `Datelike`/`Timelike` getters:
/// the present local time, whose month is 1 to 12, day 1 to 31, hour 0 to 23,
/// minute and second 0 to 59.
#[verifier::external_body]
pub(crate) fn local_now() -> (r: Timestamp)
    ensures
        r.wf(),
{
    let now = chrono::Local::now();
    Timestamp {
        year: now.year(),
        month: now.month(),
        day: now.day(),
        hour: now.hour(),
        minute: now.minute(),
        second: now.second(),
    }
}

/// The character of a decimal digit.
pub open spec fn digit_char(d: nat) -> char {
    if d == 0 {
        '0'
    } else if d == 1 {
        '1'
    } else if d == 2 {
        '2'
    } else if d == 3 {
        '3'
    } else if d == 4 {
        '4'
    } else if d == 5 {
        '5'
    } else if d == 6 {
        '6'
    } else if d == 7 {
        '7'
    } else if d == 8 {
        '8'
    } else {
        '9'
    }
}

/// The decimal digits of `n`, without leading zeros.
pub open spec fn decimal(n: nat) -> Seq<char>
    decreases n,
{
    if n < 10 {
        seq![digit_char(n)]
    } else {
        decimal(n / 10).push(digit_char(n % 10))
    }
}

/// `s` with `'0'`s in front up to `width` characters.
pub open spec fn zero_pad(s: Seq<char>, width: nat) -> Seq<char> {
    if s.len() >= width {
        s
    } else {
        Seq::new((width - s.len()) as nat, |i: int| '0') + s
    }
}

/// The year as the archive name writes it: four digits from 0 to 9999,
/// otherwise a sign and at least four digits.
pub open spec fn year_text(y: int) -> Seq<char> {
    if 0 <= y <= 9999 {
        zero_pad(decimal(y as nat), 4)
    } else if y < 0 {
        seq!['-'] + zero_pad(decimal((-y) as nat), 4)
    } else {
        seq!['+'] + zero_pad(decimal(y as nat), 4)
    }
}

/// Two digits for a field below 100.
pub open spec fn two_digits(v: nat) -> Seq<char> {
    zero_pad(decimal(v), 2)
}

/// The time as `YYYY_MM_DD__HH_MM_SS`.
pub open spec fn stamp_text(t: Timestamp) -> Seq<char> {
    year_text(t.year as int) + "_"@ + two_digits(t.month as nat) + "_"@ + two_digits(
        t.day as nat,
    ) + "__"@ + two_digits(t.hour as nat) + "_"@ + two_digits(t.minute as nat) + "_"@
        + two_digits(t.second as nat)
}

/// The archive file name for a system at a time:
/// `<system>_backup_<YYYY_MM_DD__HH_MM_SS>.zip`.
pub open spec fn archive_name_of(system: Seq<char>, t: Timestamp) -> Seq<char> {
    system + "_backup_"@ + stamp_text(t) + ".zip"@
}

/// `dir` and `name` joined: `'/'` between them unless `dir` is empty or
/// already ends in a separator.
pub open spec fn join_dir(dir: Seq<char>, name: Seq<char>) -> Seq<char> {
    if dir.len() == 0 {
        name
    } else if dir.last() == '/' || dir.last() == '\\' {
        dir + name
    } else {
        dir + "/"@ + name
    }
}

/// Two backups of one system started within the same wall-clock second aim
/// at the same archive path: names carry the time to the second only.
pub proof fn lemma_same_second_same_path(system: Seq<char>, dir: Seq<char>, a: Timestamp, b: Timestamp)
    requires
        a.year == b.year,
        a.month == b.month,
        a.day == b.day,
        a.hour == b.hour,
        a.minute == b.minute,
        a.second == b.second,
    ensures
        join_dir(dir, archive_name_of(system, a)) == join_dir(dir, archive_name_of(system, b)),
{
    assert(a == b);
}

/// The value of a digit character.
pub open spec fn digit_value(c: char) -> int {
    if c == '1' {
        1
    } else if c == '2' {
        2
    } else if c == '3' {
        3
    } else if c == '4' {
        4
    } else if c == '5' {
        5
    } else if c == '6' {
        6
    } else if c == '7' {
        7
    } else if c == '8' {
        8
    } else if c == '9' {
        9
    } else {
        0
    }
}

/// Is `c` a decimal digit?
pub open spec fn is_digit(c: char) -> bool {
    '0' <= c <= '9'
}

/// The number a text of digits stands for.
pub open spec fn digits_value(s: Seq<char>) -> int
    decreases s.len(),
{
    if s.len() == 0 {
        0
    } else {
        digits_value(s.drop_last()) * 10 + digit_value(s.last())
    }
}

proof fn lemma_digit_value(d: nat)
    requires
        d < 10,
    ensures
        digit_value(digit_char(d)) == d,
        is_digit(digit_char(d)),
{
    if d == 0 {
    } else if d == 1 {
    } else if d == 2 {
    } else if d == 3 {
    } else if d == 4 {
    } else if d == 5 {
    } else if d == 6 {
    } else if d == 7 {
    } else if d == 8 {
    } else {
        assert(d == 9);
    }
}

proof fn lemma_decimal_value(n: nat)
    ensures
        digits_value(decimal(n)) == n,
        decimal(n).len() >= 1,
        n < 10 ==> decimal(n).len() == 1,
        10 <= n < 100 ==> decimal(n).len() == 2,
        forall|i: int| 0 <= i < decimal(n).len() ==> is_digit(#[trigger] decimal(n)[i]),
    decreases n,
{
    if n < 10 {
        lemma_digit_value(n);
        assert(decimal(n).drop_last() =~= Seq::<char>::empty());
        assert(digits_value(decimal(n)) == digits_value(Seq::<char>::empty()) * 10 + digit_value(
            digit_char(n),
        ));
    } else {
        lemma_digit_value(n % 10);
        lemma_decimal_value(n / 10);
        assert(decimal(n).drop_last() =~= decimal(n / 10));
        assert(decimal(n).last() == digit_char(n % 10));
        assert(digits_value(decimal(n)) == digits_value(decimal(n / 10)) * 10 + digit_value(
            digit_char(n % 10),
        ));
        assert(n == (n / 10) * 10 + n % 10);
        assert forall|i: int| 0 <= i < decimal(n).len() implies is_digit(#[trigger] decimal(n)[i]) by {
            if i < decimal(n).len() - 1 {
                assert(decimal(n)[i] == decimal(n / 10)[i]);
            }
        }
    }
}

proof fn lemma_zeros_value(k: nat, s: Seq<char>)
    ensures
        digits_value(Seq::new(k, |i: int| '0') + s) == digits_value(s),
    decreases s.len(), k,
{
    let z = Seq::new(k, |i: int| '0');
    if s.len() == 0 {
        assert(z + s =~= z);
        if k > 0 {
            lemma_zeros_value((k - 1) as nat, s);
            assert(z.drop_last() =~= Seq::new((k - 1) as nat, |i: int| '0') + s);
        }
    } else {
        lemma_zeros_value(k, s.drop_last());
        assert((z + s).drop_last() =~= z + s.drop_last());
        assert((z + s).last() == s.last());
    }
}

/// Padding keeps the value, and the text is made of digits.
proof fn lemma_padded_value(n: nat, w: nat)
    ensures
        digits_value(zero_pad(decimal(n), w)) == n,
        forall|i: int|
            0 <= i < zero_pad(decimal(n), w).len() ==> is_digit(#[trigger] zero_pad(decimal(n), w)[i]),
        zero_pad(decimal(n), w).len() >= w,
        n < 100 ==> two_digits(n).len() == 2,
{
    lemma_decimal_value(n);
    let d = decimal(n);
    if d.len() < w {
        lemma_zeros_value((w - d.len()) as nat, d);
        let z = Seq::new((w - d.len()) as nat, |i: int| '0');
        assert forall|i: int| 0 <= i < (z + d).len() implies is_digit(#[trigger] (z + d)[i]) by {
            if i >= z.len() {
                assert((z + d)[i] == d[i - z.len()]);
            }
        }
    }
}

/// The year read back from its text.
proof fn lemma_year_text_injective(a: int, b: int)
    requires
        i32::MIN <= a <= i32::MAX,
        i32::MIN <= b <= i32::MAX,
        year_text(a) == year_text(b),
    ensures
        a == b,
{
    let ta = year_text(a);
    if 0 <= a <= 9999 {
        lemma_padded_value(a as nat, 4);
    } else if a < 0 {
        lemma_padded_value((-a) as nat, 4);
    } else {
        lemma_padded_value(a as nat, 4);
    }
    if 0 <= b <= 9999 {
        lemma_padded_value(b as nat, 4);
    } else if b < 0 {
        lemma_padded_value((-b) as nat, 4);
    } else {
        lemma_padded_value(b as nat, 4);
    }
    let ga = 0 <= a <= 9999;
    let gb = 0 <= b <= 9999;
    if ga && gb {
    } else if !ga && !gb {
        assert(ta[0] == year_text(b)[0]);
        assert(ta.subrange(1, ta.len() as int) == year_text(b).subrange(1, ta.len() as int));
        if a < 0 {
            assert(ta.subrange(1, ta.len() as int) =~= zero_pad(decimal((-a) as nat), 4));
        } else {
            assert(ta.subrange(1, ta.len() as int) =~= zero_pad(decimal(a as nat), 4));
        }
        if b < 0 {
            assert(year_text(b).subrange(1, ta.len() as int) =~= zero_pad(decimal((-b) as nat), 4));
        } else {
            assert(year_text(b).subrange(1, ta.len() as int) =~= zero_pad(decimal(b as nat), 4));
        }
    } else if ga {
        assert(is_digit(ta[0]));
        assert(!is_digit(year_text(b)[0]));
    } else {
        assert(is_digit(year_text(b)[0]));
        assert(!is_digit(ta[0]));
    }
}

/// The fields of a well-formed time read back from its text.
proof fn lemma_stamp_text_injective(a: Timestamp, b: Timestamp)
    requires
        a.wf(),
        b.wf(),
        stamp_text(a) == stamp_text(b),
    ensures
        a == b,
{
    reveal_strlit("_");
    reveal_strlit("__");
    let ya = year_text(a.year as int);
    let yb = year_text(b.year as int);
    lemma_padded_value(a.month as nat, 2);
    lemma_padded_value(a.day as nat, 2);
    lemma_padded_value(a.hour as nat, 2);
    lemma_padded_value(a.minute as nat, 2);
    lemma_padded_value(a.second as nat, 2);
    lemma_padded_value(b.month as nat, 2);
    lemma_padded_value(b.day as nat, 2);
    lemma_padded_value(b.hour as nat, 2);
    lemma_padded_value(b.minute as nat, 2);
    lemma_padded_value(b.second as nat, 2);
    let sa = stamp_text(a);
    let sb = stamp_text(b);
    assert(sa.len() == ya.len() + 16);
    assert(sb.len() == yb.len() + 16);
    let l = ya.len() as int;
    assert(sa.subrange(0, l) =~= ya);
    assert(sb.subrange(0, l) =~= yb);
    lemma_year_text_injective(a.year as int, b.year as int);
    assert(sa.subrange(l + 1, l + 3) =~= two_digits(a.month as nat));
    assert(sb.subrange(l + 1, l + 3) =~= two_digits(b.month as nat));
    assert(sa.subrange(l + 4, l + 6) =~= two_digits(a.day as nat));
    assert(sb.subrange(l + 4, l + 6) =~= two_digits(b.day as nat));
    assert(sa.subrange(l + 8, l + 10) =~= two_digits(a.hour as nat));
    assert(sb.subrange(l + 8, l + 10) =~= two_digits(b.hour as nat));
    assert(sa.subrange(l + 11, l + 13) =~= two_digits(a.minute as nat));
    assert(sb.subrange(l + 11, l + 13) =~= two_digits(b.minute as nat));
    assert(sa.subrange(l + 14, l + 16) =~= two_digits(a.second as nat));
    assert(sb.subrange(l + 14, l + 16) =~= two_digits(b.second as nat));
}

/// Archive paths of one system in one directory differ whenever the times
/// differ: with the same-second case above, two runs collide exactly when
/// they start within the same second.
pub proof fn lemma_different_seconds_different_paths(
    system: Seq<char>,
    dir: Seq<char>,
    a: Timestamp,
    b: Timestamp,
)
    requires
        a.wf(),
        b.wf(),
        join_dir(dir, archive_name_of(system, a)) == join_dir(dir, archive_name_of(system, b)),
    ensures
        a == b,
{
    reveal_strlit("/");
    reveal_strlit("_backup_");
    reveal_strlit(".zip");
    let na = archive_name_of(system, a);
    let nb = archive_name_of(system, b);
    let pa = join_dir(dir, na);
    let pb = join_dir(dir, nb);
    let k: int = if dir.len() == 0 {
        0
    } else if dir.last() == '/' || dir.last() == '\\' {
        dir.len() as int
    } else {
        dir.len() + 1 as int
    };
    assert(pa.subrange(k, pa.len() as int) =~= na);
    assert(pb.subrange(k, pb.len() as int) =~= nb);
    let m: int = system.len() as int + 8;
    assert(na.subrange(m, na.len() - 4) =~= stamp_text(a));
    assert(nb.subrange(m, nb.len() - 4) =~= stamp_text(b));
    lemma_stamp_text_injective(a, b);
}

/// The one-character text of digit `d`.
fn digit_str(d: u64) -> (r: &'static str)
    requires
        d < 10,
    ensures
        r@ == seq![digit_char(d as nat)],
{
    proof {
        reveal_strlit("0");
        reveal_strlit("1");
        reveal_strlit("2");
        reveal_strlit("3");
        reveal_strlit("4");
        reveal_strlit("5");
        reveal_strlit("6");
        reveal_strlit("7");
        reveal_strlit("8");
        reveal_strlit("9");
    }
    if d == 0 {
        "0"
    } else if d == 1 {
        "1"
    } else if d == 2 {
        "2"
    } else if d == 3 {
        "3"
    } else if d == 4 {
        "4"
    } else if d == 5 {
        "5"
    } else if d == 6 {
        "6"
    } else if d == 7 {
        "7"
    } else if d == 8 {
        "8"
    } else {
        "9"
    }
}

/// The decimal digits of `n`.
pub fn decimal_text(n: u64) -> (r: String)
    ensures
        r@ == decimal(n as nat),
    decreases n,
{
    if n < 10 {
        digit_str(n).to_string()
    } else {
        let mut s = decimal_text(n / 10);
        s.append(digit_str(n % 10));
        s
    }
}

/// The decimal digits of `n`, with `'0'`s in front up to `width`.
pub fn padded_text(n: u64, width: usize) -> (r: String)
    ensures
        r@ == zero_pad(decimal(n as nat), width as nat),
{
    proof {
        reveal_strlit("0");
    }
    let digits = decimal_text(n);
    let len = digits.as_str().unicode_len();
    if len >= width {
        return digits;
    }
    let mut r = String::new();
    let mut i: usize = 0;
    while i < width - len
        invariant
            len < width,
            i <= width - len,
            r@ == Seq::new(i as nat, |k: int| '0'),
        decreases width - len - i,
    {
        r.append("0");
        proof {
            reveal_strlit("0");
        }
        assert(r@ =~= Seq::new((i + 1) as nat, |k: int| '0'));
        i = i + 1;
    }
    r.append(digits.as_str());
    r
}

/// The year as the archive name writes it.
pub fn year_string(y: i32) -> (r: String)
    ensures
        r@ == year_text(y as int),
{
    proof {
        reveal_strlit("-");
        reveal_strlit("+");
    }
    if 0 <= y && y <= 9999 {
        padded_text(y as u64, 4)
    } else if y < 0 {
        let magnitude: u64 = (0i64 - y as i64) as u64;
        let digits = padded_text(magnitude, 4);
        joined("-", digits.as_str())
    } else {
        let digits = padded_text(y as u64, 4);
        joined("+", digits.as_str())
    }
}

/// The time as `YYYY_MM_DD__HH_MM_SS`.
pub fn stamp_string(t: &Timestamp) -> (r: String)
    ensures
        r@ == stamp_text(*t),
{
    let mut s = year_string(t.year);
    s.append("_");
    s.append(padded_text(t.month as u64, 2).as_str());
    s.append("_");
    s.append(padded_text(t.day as u64, 2).as_str());
    s.append("__");
    s.append(padded_text(t.hour as u64, 2).as_str());
    s.append("_");
    s.append(padded_text(t.minute as u64, 2).as_str());
    s.append("_");
    s.append(padded_text(t.second as u64, 2).as_str());
    s
}

/// The archive file name for `system` at time `t`.
pub fn archive_file_name(system: &str, t: &Timestamp) -> (r: String)
    ensures
        r@ == archive_name_of(system@, *t),
{
    let mut s = system.to_string();
    s.append("_backup_");
    s.append(stamp_string(t).as_str());
    s.append(".zip");
    s
}

/// The archive path for `system` in directory `dest_dir` at time `t`.
pub fn zip_path_at(system: &str, dest_dir: &str, t: &Timestamp) -> (r: String)
    ensures
        r@ == join_dir(dest_dir@, archive_name_of(system@, *t)),
{
    let name = archive_file_name(system, t);
    join_path(dest_dir, name.as_str())
}

/// `dir` and `name` joined as `join_dir` says.
pub fn join_path(dir: &str, name: &str) -> (r: String)
    ensures
        r@ == join_dir(dir@, name@),
{
    let n = dir.unicode_len();
    if n == 0 {
        return name.to_string();
    }
    let last = dir.get_char(n - 1);
    if last == '/' || last == '\\' {
        joined(dir, name)
    } else {
        let with_sep = joined(dir, "/");
        joined(with_sep.as_str(), name)
    }
}

/// The archive path for `system` in directory `dest_dir`, named after the
/// present local time to the second. Two calls within one second give the
/// same path.
pub fn get_zip_path(system: &str, dest_dir: &str) -> (r: String)
    ensures
        exists|t: Timestamp| t.wf() && r@ == join_dir(dest_dir@, archive_name_of(system@, t)),
{
    let now = local_now();
    zip_path_at(system, dest_dir, &now)
}

} // verus!
