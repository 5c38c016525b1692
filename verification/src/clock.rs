//! File names that carry the local time.

use chrono::{Datelike, Timelike};
use vstd::prelude::*;

verus! {

/// A moment on the local clock.
#[derive(Clone, Copy, PartialEq, Eq, Structural, Debug)]
pub struct Moment {
    pub day: u32,
    pub month: u32,
    pub year: i32,
    pub hour: u32,
    pub minute: u32,
    pub second: u32,
}

impl Moment {
    /// A clock can show this moment.
    pub open spec fn valid(self) -> bool {
        &&& 1 <= self.day <= 31
        &&& 1 <= self.month <= 12
        &&& self.hour <= 23
        &&& self.minute <= 59
        &&& self.second <= 59
    }
}

/// The character of a decimal digit.
pub open spec fn digit(d: nat) -> char {
    (48 + d) as char
}

/// `n` in decimal.
pub open spec fn decimal(n: nat) -> Seq<char>
    decreases n,
{
    if n < 10 {
        seq![digit(n)]
    } else {
        decimal(n / 10).push(digit(n % 10))
    }
}

/// `count` zeros.
pub open spec fn zeros(count: nat) -> Seq<char> {
    Seq::new(count, |i: int| '0')
}

/// `n` in decimal, with zeros in front where it is shorter than `width` characters.
pub open spec fn padded(n: nat, width: nat) -> Seq<char> {
    if decimal(n).len() < width {
        zeros((width - decimal(n).len()) as nat) + decimal(n)
    } else {
        decimal(n)
    }
}

/// A year in at least four characters. The sign of a year before year 0 is one of them.
pub open spec fn year_text(year: i32) -> Seq<char> {
    if year < 0 {
        seq!['-'] + padded((-year) as nat, 3)
    } else {
        padded(year as nat, 4)
    }
}

/// A moment as it stands in a file name: day, month and year, a hyphen, and the time of day.
pub open spec fn stamp(moment: Moment) -> Seq<char> {
    padded(moment.day as nat, 2) + padded(moment.month as nat, 2) + year_text(moment.year)
        + seq!['-'] + padded(moment.hour as nat, 2) + padded(moment.minute as nat, 2) + padded(
        moment.second as nat,
        2,
    )
}

/// The file name of a recording that starts at this moment.
pub open spec fn recording_name_text(moment: Moment) -> Seq<char> {
    "enginesound_"@ + stamp(moment) + ".wav"@
}

/// The file name of an engine configuration that is saved at this moment.
pub open spec fn config_name_text(moment: Moment) -> Seq<char> {
    "enginesound_"@ + stamp(moment) + ".esc"@
}

/// The local time, read with `chrono::Local::now` and taken apart with the getters of chrono's
/// `Datelike` and `Timelike`. It claims no more than the ranges that those getters document. What
/// the clock shows is left open. Chrono panics where the clock of the machine is set before 1970,
/// or where its time zone is further from UTC than chrono can represent.
#[verifier::external_body]
fn local_now() -> (r: Moment)
    ensures
        r.valid(),
{
    let time = chrono::Local::now();
    Moment {
        day: time.day(),
        month: time.month(),
        year: time.year(),
        hour: time.hour(),
        minute: time.minute(),
        second: time.second(),
    }
}

/// `moment` came out of reading the local clock.
pub closed spec fn clock_showed(moment: Moment) -> bool {
    call_ensures(local_now, (), moment)
}

fn digit_str(d: u64) -> (r: &'static str)
    requires
        d < 10,
    ensures
        r@ == seq![digit(d as nat)],
{
    proof {
        reveal_strlit("0");
        reveal_strlit("1");
        reveal_strlit("2");
        reveal_strlit("3");
        reveal_strlit("4");
        reveal_strlit("5");
        reveal_strlit("6");
        reveal_strlit("7");
        reveal_strlit("8");
        reveal_strlit("9");
    }
    match d {
        0 => "0",
        1 => "1",
        2 => "2",
        3 => "3",
        4 => "4",
        5 => "5",
        6 => "6",
        7 => "7",
        8 => "8",
        _ => "9",
    }
}

fn push_decimal(text: &mut String, n: u64)
    ensures
        final(text)@ == old(text)@ + decimal(n as nat),
    decreases n,
{
    if n < 10 {
        text.append(digit_str(n));
    } else {
        push_decimal(text, n / 10);
        text.append(digit_str(n % 10));
        assert(text@ =~= old(text)@ + decimal(n as nat));
    }
}

fn decimal_len(n: u64) -> (r: usize)
    ensures
        r == decimal(n as nat).len(),
        1 <= r <= 20,
{
    let mut rest: u64 = n;
    let mut len: usize = 1;
    proof {
        lemma_decimal_len(n as nat, 20);
    }
    while rest >= 10
        invariant
            len + decimal(rest as nat).len() == decimal(n as nat).len() + 1,
            decimal(n as nat).len() <= 20,
            1 <= len <= 20,
        decreases rest,
    {
        rest = rest / 10;
        proof {
            lemma_decimal_not_empty(rest as nat);
        }
        len += 1;
    }
    len
}

proof fn lemma_decimal_not_empty(n: nat)
    ensures
        decimal(n).len() >= 1,
    decreases n,
{
    if n >= 10 {
        lemma_decimal_not_empty(n / 10);
    }
}

spec fn power_of_ten(k: nat) -> nat
    decreases k,
{
    if k == 0 {
        1
    } else {
        10 * power_of_ten((k - 1) as nat)
    }
}

proof fn lemma_decimal_len(n: nat, k: nat)
    requires
        k > 0,
        n <= u64::MAX,
        k == 20 || n < power_of_ten(k),
    ensures
        decimal(n).len() <= k,
    decreases k,
{
    reveal_with_fuel(power_of_ten, 21);
    if n >= 10 {
        lemma_decimal_len(n / 10, (k - 1) as nat);
    }
}

fn push_padded(text: &mut String, n: u64, width: usize)
    ensures
        final(text)@ == old(text)@ + padded(n as nat, width as nat),
{
    let len: usize = decimal_len(n);
    let ghost before = text@;
    let mut count: usize = len;
    while count < width
        invariant
            len <= count,
            count <= width || count == len,
            text@ == before + zeros((count - len) as nat),
        decreases width - count,
    {
        text.append(digit_str(0));
        count += 1;
        assert(text@ =~= before + zeros((count - len) as nat));
    }
    push_decimal(text, n);
    assert(text@ =~= before + padded(n as nat, width as nat));
}

fn push_year(text: &mut String, year: i32)
    ensures
        final(text)@ == old(text)@ + year_text(year),
{
    if year < 0 {
        proof {
            reveal_strlit("-");
        }
        assert("-"@ =~= seq!['-']);
        text.append("-");
        let years: i64 = -(year as i64);
        push_padded(text, years as u64, 3);
        assert(text@ =~= old(text)@ + year_text(year));
    } else {
        push_padded(text, year as u64, 4);
    }
}

fn name_at(moment: &Moment, ending: &str) -> (r: String)
    ensures
        r@ == "enginesound_"@ + stamp(*moment) + ending@,
{
    let mut text = "enginesound_".to_owned();
    push_padded(&mut text, moment.day as u64, 2);
    push_padded(&mut text, moment.month as u64, 2);
    push_year(&mut text, moment.year);
    proof {
        reveal_strlit("-");
    }
    assert("-"@ =~= seq!['-']);
    text.append("-");
    push_padded(&mut text, moment.hour as u64, 2);
    push_padded(&mut text, moment.minute as u64, 2);
    push_padded(&mut text, moment.second as u64, 2);
    text.append(ending);
    assert(text@ =~= "enginesound_"@ + stamp(*moment) + ending@);
    text
}

/// The file name of a recording that starts at `moment`.
pub fn recording_name_at(moment: &Moment) -> (r: String)
    ensures
        r@ == recording_name_text(*moment),
{
    name_at(moment, ".wav")
}

/// The file name of an engine configuration that is saved at `moment`.
pub fn config_name_at(moment: &Moment) -> (r: String)
    ensures
        r@ == config_name_text(*moment),
{
    name_at(moment, ".esc")
}

/// The file name of a recording that starts now.
pub fn recording_name() -> (r: String)
    ensures
        exists|moment: Moment| #[trigger]
            clock_showed(moment) && moment.valid() && r@ == recording_name_text(moment),
{
    let moment = local_now();
    assert(clock_showed(moment));
    recording_name_at(&moment)
}

/// The file name of an engine configuration that is saved now.
pub fn config_name() -> (r: String)
    ensures
        exists|moment: Moment| #[trigger]
            clock_showed(moment) && moment.valid() && r@ == config_name_text(moment),
{
    let moment = local_now();
    assert(clock_showed(moment));
    config_name_at(&moment)
}

/// The number that a text of decimal digits stands for.
pub open spec fn value(text: Seq<char>) -> int
    decreases text.len(),
{
    if text.len() == 0 {
        0
    } else {
        10 * value(text.drop_last()) + (text.last() as int - 48)
    }
}

proof fn lemma_value_of_decimal(n: nat)
    ensures
        value(decimal(n)) == n,
    decreases n,
{
    if n < 10 {
        assert(decimal(n).drop_last() =~= Seq::<char>::empty());
        assert(value(decimal(n).drop_last()) == 0);
        assert(decimal(n).last() == digit(n));
    } else {
        lemma_value_of_decimal(n / 10);
        assert(decimal(n).drop_last() =~= decimal(n / 10));
        assert(decimal(n).last() == digit(n % 10));
    }
}

proof fn lemma_zeros_add_nothing(count: nat, text: Seq<char>)
    ensures
        value(zeros(count) + text) == value(text),
    decreases count + text.len(),
{
    let whole = zeros(count) + text;
    if text.len() > 0 {
        lemma_zeros_add_nothing(count, text.drop_last());
        assert(whole.drop_last() =~= zeros(count) + text.drop_last());
    } else if count > 0 {
        lemma_zeros_add_nothing((count - 1) as nat, text);
        assert(whole.drop_last() =~= zeros((count - 1) as nat) + text);
        assert(whole.last() == '0');
    } else {
        assert(whole =~= text);
    }
}

/// Padding keeps the number readable, and what fits in two characters takes two.
proof fn lemma_padded(n: nat, width: nat)
    ensures
        value(padded(n, width)) == n,
        padded(n, width).len() >= 1,
        '0' <= padded(n, width)[0],
        width == 2 && n < 100 ==> padded(n, width).len() == 2,
{
    lemma_value_of_decimal(n);
    lemma_decimal_not_empty(n);
    lemma_decimal_starts_with_a_digit(n);
    if decimal(n).len() < width {
        lemma_zeros_add_nothing((width - decimal(n).len()) as nat, decimal(n));
    }
    if n < 100 {
        reveal_with_fuel(decimal, 2);
    }
}

proof fn lemma_decimal_starts_with_a_digit(n: nat)
    ensures
        decimal(n).len() >= 1,
        '0' <= decimal(n)[0],
    decreases n,
{
    if n >= 10 {
        lemma_decimal_starts_with_a_digit(n / 10);
    }
}

proof fn lemma_year(a: i32, b: i32)
    ensures
        year_text(a) == year_text(b) ==> a == b,
{
    lemma_padded(if a < 0 { -a } else { a as int } as nat, if a < 0 { 3 } else { 4 });
    lemma_padded(if b < 0 { -b } else { b as int } as nat, if b < 0 { 3 } else { 4 });
    let s = year_text(a);
    let t = year_text(b);
    if s == t {
        if a < 0 && b < 0 {
            assert(padded((-a) as nat, 3) =~= s.subrange(1, s.len() as int));
            assert(padded((-b) as nat, 3) =~= t.subrange(1, t.len() as int));
        } else if a < 0 || b < 0 {
            assert(s[0] == t[0]);
        }
    }
}

/// Where the parts of a stamp stand.
proof fn lemma_parts<T>(
    day: Seq<T>,
    month: Seq<T>,
    year: Seq<T>,
    hyphen: Seq<T>,
    hour: Seq<T>,
    minute: Seq<T>,
    second: Seq<T>,
)
    requires
        day.len() == 2,
        month.len() == 2,
        hyphen.len() == 1,
        hour.len() == 2,
        minute.len() == 2,
        second.len() == 2,
    ensures
        ({
            let s = day + month + year + hyphen + hour + minute + second;
            let y = s.len() - 7;
            &&& y == 4 + year.len()
            &&& s.subrange(0, 2) == day
            &&& s.subrange(2, 4) == month
            &&& s.subrange(4, y) == year
            &&& s.subrange(y + 1, y + 3) == hour
            &&& s.subrange(y + 3, y + 5) == minute
            &&& s.subrange(y + 5, y + 7) == second
        }),
{
    let s = day + month + year + hyphen + hour + minute + second;
    let y = s.len() - 7;
    assert(s.subrange(0, 2) =~= day);
    assert(s.subrange(2, 4) =~= month);
    assert(s.subrange(4, y) =~= year);
    assert(s.subrange(y + 1, y + 3) =~= hour);
    assert(s.subrange(y + 3, y + 5) =~= minute);
    assert(s.subrange(y + 5, y + 7) =~= second);
}

proof fn lemma_stamp_parts(moment: Moment)
    requires
        moment.valid(),
    ensures
        ({
            let s = stamp(moment);
            let y = s.len() - 7;
            &&& y >= 4
            &&& value(s.subrange(0, 2)) == moment.day
            &&& value(s.subrange(2, 4)) == moment.month
            &&& s.subrange(4, y) == year_text(moment.year)
            &&& value(s.subrange(y + 1, y + 3)) == moment.hour
            &&& value(s.subrange(y + 3, y + 5)) == moment.minute
            &&& value(s.subrange(y + 5, y + 7)) == moment.second
        }),
{
    lemma_padded(moment.day as nat, 2);
    lemma_padded(moment.month as nat, 2);
    lemma_padded(moment.hour as nat, 2);
    lemma_padded(moment.minute as nat, 2);
    lemma_padded(moment.second as nat, 2);
    lemma_parts(
        padded(moment.day as nat, 2),
        padded(moment.month as nat, 2),
        year_text(moment.year),
        seq!['-'],
        padded(moment.hour as nat, 2),
        padded(moment.minute as nat, 2),
        padded(moment.second as nat, 2),
    );
}

/// Two different moments give two different file names, so that a recording or configuration does
/// not offer to overwrite the one before.
pub proof fn law_different_moments_have_different_names(a: Moment, b: Moment)
    requires
        a.valid(),
        b.valid(),
        recording_name_text(a) == recording_name_text(b) || config_name_text(a)
            == config_name_text(b),
    ensures
        a == b,
{
    lemma_stamp_parts(a);
    lemma_stamp_parts(b);
    lemma_year(a.year, b.year);
    assert(stamp(a) == stamp(b)) by {
        let start = "enginesound_"@.len() as int;
        if recording_name_text(a) == recording_name_text(b) {
            let end = recording_name_text(a).len() - ".wav"@.len();
            assert(stamp(a) =~= recording_name_text(a).subrange(start, end));
            assert(stamp(b) =~= recording_name_text(b).subrange(start, end));
        } else {
            let end = config_name_text(a).len() - ".esc"@.len();
            assert(stamp(a) =~= config_name_text(a).subrange(start, end));
            assert(stamp(b) =~= config_name_text(b).subrange(start, end));
        }
    }
}

/// A recording and a configuration of the same moment have the same name but for the ending.
pub proof fn law_names_of_a_moment_differ_in_the_ending_only(moment: Moment)
    ensures
        recording_name_text(moment).drop_last().drop_last().drop_last() == config_name_text(
            moment,
        ).drop_last().drop_last().drop_last(),
        recording_name_text(moment) != config_name_text(moment),
{
    reveal_strlit(".wav");
    reveal_strlit(".esc");
    let r = recording_name_text(moment);
    let c = config_name_text(moment);
    assert(r.drop_last().drop_last().drop_last() =~= c.drop_last().drop_last().drop_last());
    assert(r.last() == 'v' && c.last() == 'c');
}

/// `text` is a file name with this moment and this ending: day, month, year, a hyphen, hour, minute
/// and second. All but the year take two digits. A year from 0 to 9999 takes four. A later one is
/// written in full, and one before year 0 with a minus sign and at least three digits.
pub open spec fn names_moment(text: Seq<char>, moment: Moment, ending: Seq<char>) -> bool {
    exists|year: Seq<char>|
        {
            &&& text == "enginesound_"@ + seq![
                (48 + moment.day / 10) as char,
                (48 + moment.day % 10) as char,
                (48 + moment.month / 10) as char,
                (48 + moment.month % 10) as char,
            ] + year + seq![
                '-',
                (48 + moment.hour / 10) as char,
                (48 + moment.hour % 10) as char,
                (48 + moment.minute / 10) as char,
                (48 + moment.minute % 10) as char,
                (48 + moment.second / 10) as char,
                (48 + moment.second % 10) as char,
            ] + ending
            &&& #[trigger] names_year(year, moment.year)
        }
}

/// `text` is the year in a file name.
pub open spec fn names_year(text: Seq<char>, year: i32) -> bool {
    if year < 0 {
        &&& text.len() >= 4
        &&& text[0] == '-'
        &&& value(text.skip(1)) == -year
        &&& forall|i: int| 1 <= i < text.len() ==> '0' <= #[trigger] text[i] <= '9'
        &&& text.len() > 4 ==> text[1] != '0'
    } else if year <= 9999 {
        text == seq![
            (48 + year / 1000) as char,
            (48 + year / 100 % 10) as char,
            (48 + year / 10 % 10) as char,
            (48 + year % 10) as char,
        ]
    } else {
        &&& text.len() > 4
        &&& value(text) == year
        &&& forall|i: int| 0 <= i < text.len() ==> '0' <= #[trigger] text[i] <= '9'
        &&& text[0] != '0'
    }
}

proof fn lemma_two_digits(n: nat)
    requires
        n < 100,
    ensures
        padded(n, 2) == seq![(48 + n / 10) as char, (48 + n % 10) as char],
{
    reveal_with_fuel(decimal, 3);
    assert(padded(n, 2) =~= seq![(48 + n / 10) as char, (48 + n % 10) as char]);
}

proof fn lemma_four_digits(n: nat)
    requires
        n < 10000,
    ensures
        padded(n, 4) == seq![
            (48 + n / 1000) as char,
            (48 + n / 100 % 10) as char,
            (48 + n / 10 % 10) as char,
            (48 + n % 10) as char,
        ],
{
    reveal_with_fuel(decimal, 5);
    assert(n / 10 / 10 == n / 100 && n / 10 / 10 / 10 == n / 1000);
    assert(padded(n, 4) =~= seq![
        (48 + n / 1000) as char,
        (48 + n / 100 % 10) as char,
        (48 + n / 10 % 10) as char,
        (48 + n % 10) as char,
    ]);
}

proof fn lemma_digits(n: nat)
    ensures
        decimal(n).len() >= 1,
        forall|i: int| 0 <= i < decimal(n).len() ==> '0' <= #[trigger] decimal(n)[i] <= '9',
        n > 0 ==> decimal(n)[0] != '0',
        n >= 1000 ==> decimal(n).len() >= 4,
        n >= 10000 ==> decimal(n).len() >= 5,
    decreases n,
{
    if n >= 10 {
        lemma_digits(n / 10);
        if n >= 1000 {
            reveal_with_fuel(decimal, 5);
        }
    }
}

proof fn lemma_names_year(year: i32)
    ensures
        names_year(year_text(year), year),
{
    let text = year_text(year);
    if year < 0 {
        let n = (-year) as nat;
        lemma_padded(n, 3);
        lemma_digits(n);
        assert(text.skip(1) =~= padded(n, 3));
        assert forall|i: int| 1 <= i < text.len() implies '0' <= #[trigger] text[i] <= '9' by {
            assert(text[i] == padded(n, 3)[i - 1]);
            let pad = padded(n, 3).len() - decimal(n).len();
            if i - 1 >= pad {
                assert(padded(n, 3)[i - 1] == decimal(n)[i - 1 - pad]);
            }
        }
    } else if year <= 9999 {
        lemma_four_digits(year as nat);
    } else {
        lemma_padded(year as nat, 4);
        lemma_digits(year as nat);
    }
}

proof fn lemma_names_moment(moment: Moment, ending: Seq<char>)
    requires
        moment.valid(),
    ensures
        names_moment("enginesound_"@ + stamp(moment) + ending, moment, ending),
{
    lemma_two_digits(moment.day as nat);
    lemma_two_digits(moment.month as nat);
    lemma_two_digits(moment.hour as nat);
    lemma_two_digits(moment.minute as nat);
    lemma_two_digits(moment.second as nat);
    lemma_names_year(moment.year);
    let year = year_text(moment.year);
    let text = "enginesound_"@ + stamp(moment) + ending;
    assert(text =~= "enginesound_"@ + seq![
        (48 + moment.day / 10) as char,
        (48 + moment.day % 10) as char,
        (48 + moment.month / 10) as char,
        (48 + moment.month % 10) as char,
    ] + year + seq![
        '-',
        (48 + moment.hour / 10) as char,
        (48 + moment.hour % 10) as char,
        (48 + moment.minute / 10) as char,
        (48 + moment.minute % 10) as char,
        (48 + moment.second / 10) as char,
        (48 + moment.second % 10) as char,
    ] + ending);
    assert(names_year(year, moment.year));
}

/// The file name of a recording names the moment it is made for, and ends in ".wav".
pub proof fn law_recordings_are_named_by_their_moment(moment: &Moment, r: String)
    requires
        moment.valid(),
        call_ensures(recording_name_at, (moment,), r),
    ensures
        names_moment(r@, *moment, ".wav"@),
{
    lemma_names_moment(*moment, ".wav"@);
}

/// The file name of a configuration names the moment it is made for, and ends in ".esc".
pub proof fn law_configurations_are_named_by_their_moment(moment: &Moment, r: String)
    requires
        moment.valid(),
        call_ensures(config_name_at, (moment,), r),
    ensures
        names_moment(r@, *moment, ".esc"@),
{
    lemma_names_moment(*moment, ".esc"@);
}

/// The file names that are offered name a moment that the clock showed.
pub proof fn law_names_tell_what_the_clock_showed(recording: String, config: String)
    requires
        call_ensures(recording_name, (), recording),
        call_ensures(config_name, (), config),
    ensures
        exists|moment: Moment| #[trigger]
            clock_showed(moment) && names_moment(recording@, moment, ".wav"@),
        exists|moment: Moment| #[trigger]
            clock_showed(moment) && names_moment(config@, moment, ".esc"@),
{
    let a = choose|moment: Moment| #[trigger]
        clock_showed(moment) && moment.valid() && recording@ == recording_name_text(moment);
    let b = choose|moment: Moment| #[trigger]
        clock_showed(moment) && moment.valid() && config@ == config_name_text(moment);
    lemma_names_moment(a, ".wav"@);
    lemma_names_moment(b, ".esc"@);
}

}
