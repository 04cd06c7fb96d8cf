//! The date/time shortcut parser and the small field parsers of the entry
//! flow: priorities, tag lists and dependency lists.
//!
//! Every grammar here is stated as a spec function or relation over character
//! sequences; the executable parsers are proved against them.  The current
//! moment enters only as an explicit argument or through `crate::clock`.

use vstd::prelude::*;

use crate::calendar::{
    add_days, next_weekday_date, spec_day_count, spec_weekday, CivilDateTime,
    Date, Time,
};
use crate::clock;
use crate::task::Priority;
use crate::text::{
    chars_of, eq_str, lower_chars, parse_i64, prefix_chars, small_digits_val, spec_all_digits,
    spec_digits_val, spec_lower_seq, spec_parse_i64, spec_split, spec_trim, split_chars,
    string_of_chars, trim_chars,
};

verus! {

/// The number before a one-letter suffix, as `i64` parsing reads it.
pub open spec fn spec_suffix_num(low: Seq<char>, suffix: char) -> Option<i64> {
    if low.len() > 0 && low.last() == suffix {
        spec_parse_i64(low.drop_last())
    } else {
        None
    }
}

/// The weekday a three-letter token names, with Monday as 0.
pub open spec fn spec_weekday_token(low: Seq<char>) -> Option<u8> {
    if low == "mon"@ {
        Some(0u8)
    } else if low == "tue"@ {
        Some(1u8)
    } else if low == "wed"@ {
        Some(2u8)
    } else if low == "thu"@ {
        Some(3u8)
    } else if low == "fri"@ {
        Some(4u8)
    } else if low == "sat"@ {
        Some(5u8)
    } else if low == "sun"@ {
        Some(6u8)
    } else {
        None
    }
}

/// Whether the lower-cased text is one of the date shortcut tokens.
pub open spec fn spec_is_date_token(low: Seq<char>) -> bool {
    ||| low == "today"@
    ||| low == "t"@
    ||| low == "tomorrow"@
    ||| low == "tm"@
    ||| spec_suffix_num(low, 'd') is Some
    ||| spec_suffix_num(low, 'w') is Some
    ||| spec_weekday_token(low) is Some
}

/// `r` is the date `delta` days from `today`, or nothing when that leaves
/// the calendar.
pub open spec fn spec_shifted(today: Date, delta: int, r: Option<Date>) -> bool {
    match r {
        Some(d) => d.wf() && d.spec_day_index() == today.spec_day_index() + delta,
        None => !(0 <= today.spec_day_index() + delta < spec_day_count()),
    }
}

/// `r` is the first date strictly after `today` falling on weekday `w`, or
/// nothing when that leaves the calendar.
pub open spec fn spec_next_weekday(today: Date, w: u8, r: Option<Date>) -> bool {
    match r {
        Some(d) => {
            &&& d.wf()
            &&& today.spec_day_index() < d.spec_day_index() <= today.spec_day_index() + 7
            &&& spec_weekday(d.spec_day_index()) == w
            &&& forall|j: int|
                today.spec_day_index() < j < d.spec_day_index() ==> spec_weekday(j) != w
        },
        None => today.spec_day_index() + 7 >= spec_day_count(),
    }
}

/// What a date shortcut token resolves to against `today`: `today`/`t`,
/// `tomorrow`/`tm`, a signed count of days `<N>d` or weeks `<N>w`, or the
/// next occurrence of a weekday, never `today` itself.  Anything else
/// resolves to nothing.
pub open spec fn spec_date_token(s: Seq<char>, today: Date, r: Option<Date>) -> bool {
    let low = spec_lower_seq(s);
    if low == "today"@ || low == "t"@ {
        r == Some(today)
    } else if low == "tomorrow"@ || low == "tm"@ {
        spec_shifted(today, 1, r)
    } else if spec_suffix_num(low, 'd') is Some {
        spec_shifted(today, spec_suffix_num(low, 'd').unwrap() as int, r)
    } else if spec_suffix_num(low, 'w') is Some {
        spec_shifted(today, 7 * spec_suffix_num(low, 'w').unwrap() as int, r)
    } else if spec_weekday_token(low) is Some {
        spec_next_weekday(today, spec_weekday_token(low).unwrap(), r)
    } else {
        r is None
    }
}

/// Reads the number before `suffix`, as `spec_suffix_num` does.
fn suffix_num(low: &Vec<char>, suffix: char) -> (r: Option<i64>)
    ensures
        r == spec_suffix_num(low@, suffix),
{
    let n = low.len();
    if n > 0 && low[n - 1] == suffix {
        let head = prefix_chars(low, n - 1);
        proof {
            assert(head@ =~= low@.drop_last());
        }
        parse_i64(&head)
    } else {
        None
    }
}

/// Reads a weekday token, as `spec_weekday_token` does.
fn weekday_token(low: &Vec<char>) -> (r: Option<u8>)
    ensures
        r == spec_weekday_token(low@),
{
    if eq_str(low, "mon") {
        Some(0)
    } else if eq_str(low, "tue") {
        Some(1)
    } else if eq_str(low, "wed") {
        Some(2)
    } else if eq_str(low, "thu") {
        Some(3)
    } else if eq_str(low, "fri") {
        Some(4)
    } else if eq_str(low, "sat") {
        Some(5)
    } else if eq_str(low, "sun") {
        Some(6)
    } else {
        None
    }
}

/// Resolves a date shortcut token against an explicit `today`.
pub fn shortcut_date_for(s: &str, today: Date) -> (r: Option<Date>)
    requires
        today.wf(),
    ensures
        spec_date_token(s@, today, r),
{
    let low = lower_chars(s);
    if eq_str(&low, "today") || eq_str(&low, "t") {
        return Some(today);
    }
    if eq_str(&low, "tomorrow") || eq_str(&low, "tm") {
        return add_days(today, 1);
    }
    match suffix_num(&low, 'd') {
        Some(n) => {
            return add_days(today, n);
        },
        None => {},
    }
    match suffix_num(&low, 'w') {
        Some(n) => {
            if n > 600000 || n < -600000 {
                proof {
                    crate::calendar::lemma_day_index_in_year(today);
                    crate::calendar::lemma_days_before_year_bounds(10000);
                }
                return None;
            }
            return add_days(today, n * 7);
        },
        None => {},
    }
    match weekday_token(&low) {
        Some(w) => next_weekday_date(today, w),
        None => None,
    }
}

/// Resolves a date shortcut token against the machine's current local date.
/// Any date returned is a valid reading of the text against some well-formed
/// current date; `shortcut_date_for` carries the exact grammar.
pub fn parse_shortcut_date(s: &str) -> (r: Option<Date>)
    ensures
        match r {
            Some(d) => exists|today: Date|
                today.wf() && #[trigger] spec_date_token(s@, today, Some(d)),
            None => true,
        },
        !spec_is_date_token(spec_lower_seq(s@)) ==> r is None,
{
    let p = clock::now_local_parts();
    match clock::civil_of_parts(p) {
        Some(c) => {
            let r = shortcut_date_for(s, c.date);
            proof {
                if r is Some {
                    assert(spec_date_token(s@, c.date, r));
                }
            }
            r
        },
        None => None,
    }
}

/// What a time shortcut token resolves to against the current time of day:
/// a named time (`last`, `morning`, `noon`, `evening`, `night`) or `<N>h`,
/// the current time moved by whole hours.  Anything else resolves to
/// nothing.
pub open spec fn spec_time_token(s: Seq<char>, now: Time) -> Option<Time> {
    let low = spec_lower_seq(s);
    if low == "last"@ {
        Some(Time { hour: 23, minute: 59 })
    } else if low == "morning"@ {
        Some(Time { hour: 9, minute: 0 })
    } else if low == "noon"@ {
        Some(Time { hour: 12, minute: 0 })
    } else if low == "evening"@ {
        Some(Time { hour: 18, minute: 0 })
    } else if low == "night"@ {
        Some(Time { hour: 21, minute: 0 })
    } else if spec_suffix_num(low, 'h') is Some {
        let n = spec_suffix_num(low, 'h').unwrap() as int;
        Some(Time { hour: (((now.hour + n) % 24) as u8), minute: now.minute })
    } else {
        None
    }
}

/// Moves a time of day by a signed count of whole hours, wrapping around
/// midnight and keeping the minutes.
pub fn plus_hours(t: Time, n: i64) -> (r: Time)
    requires
        t.wf(),
    ensures
        r.wf(),
        r.hour == ((t.hour + n) % 24) as u8,
        r.minute == t.minute,
{
    let shift: u64 = if n >= 0 {
        let s = (n as u64) % 24;
        proof {
            assert(s as int == (n as int) % 24);
        }
        s
    } else {
        let m = -(n + 1);  // 0 <= m <= i64::MAX
        let k = ((m as u64) + 1) % 24;
        let s = (24 - k) % 24;
        proof {
            let q = ((m as int) + 1) / 24;
            vstd::arithmetic::div_mod::lemma_fundamental_div_mod((m as int) + 1, 24);
            assert((m as int) + 1 == 24 * q + k);
            assert(n as int == 24 * (-q) - (k as int));
            assert(n as int == 24 * (-q - 1) + (24 - k));
            vstd::arithmetic::div_mod::lemma_mod_multiples_vanish(-q - 1, 24 - k, 24);
            assert((n as int) % 24 == (24 - (k as int)) % 24);
            vstd::arithmetic::div_mod::lemma_mod_twice(24 - (k as int), 24);
            assert(s as int == (24 - (k as int)) % 24);
        }
        s
    };
    proof {
        assert(shift as int == (n as int) % 24);
        vstd::arithmetic::div_mod::lemma_small_mod(t.hour as nat, 24);
        vstd::arithmetic::div_mod::lemma_mod_twice(n as int, 24);
        vstd::arithmetic::div_mod::lemma_add_mod_noop(t.hour as int, n as int, 24);
        vstd::arithmetic::div_mod::lemma_add_mod_noop(t.hour as int, (n as int) % 24, 24);
        assert(((t.hour as int + shift as int) % 24) == ((t.hour + n) % 24));
    }
    let hour = ((t.hour as u64 + shift) % 24) as u8;
    Time { hour, minute: t.minute }
}

/// Resolves a time shortcut token against an explicit current time.
pub fn shortcut_time_for(s: &str, now: Time) -> (r: Option<Time>)
    requires
        now.wf(),
    ensures
        r == spec_time_token(s@, now),
        r is Some ==> r.unwrap().wf(),
{
    let low = lower_chars(s);
    if eq_str(&low, "last") {
        return Some(Time { hour: 23, minute: 59 });
    }
    if eq_str(&low, "morning") {
        return Some(Time { hour: 9, minute: 0 });
    }
    if eq_str(&low, "noon") {
        return Some(Time { hour: 12, minute: 0 });
    }
    if eq_str(&low, "evening") {
        return Some(Time { hour: 18, minute: 0 });
    }
    if eq_str(&low, "night") {
        return Some(Time { hour: 21, minute: 0 });
    }
    match suffix_num(&low, 'h') {
        Some(n) => Some(plus_hours(now, n)),
        None => None,
    }
}

/// Resolves a time shortcut token against the machine's current local time.
/// Any time returned is a valid reading of the text against some well-formed
/// current time; `shortcut_time_for` carries the exact grammar.
pub fn parse_shortcut_time(s: &str) -> (r: Option<Time>)
    ensures
        match r {
            Some(t) => t.wf() && exists|now: Time|
                now.wf() && #[trigger] spec_time_token(s@, now) == Some(t),
            None => forall|other: Time| #[trigger] spec_time_token(s@, other) is None,
        },
{
    let p = clock::now_local_parts();
    let now = Time { hour: p.hour, minute: p.minute };
    let r = shortcut_time_for(s, now);
    proof {
        if r is Some {
            assert(spec_time_token(s@, now) == r);
        }
    }
    r
}

/// Shortcut law: the token `t` always reads as today itself.
pub proof fn lemma_token_today(today: Date, r: Option<Date>)
    requires
        spec_date_token("t"@, today, r),
    ensures
        r == Some(today),
{
    reveal_strlit("t");
    reveal_strlit("today");
    assert(spec_lower_seq("t"@) =~= "t"@);
}

/// Shortcut law: the token `tm` always reads as the day after today.
pub proof fn lemma_token_tomorrow(today: Date, r: Option<Date>)
    requires
        spec_date_token("tm"@, today, r),
    ensures
        spec_shifted(today, 1, r),
        r is Some ==> r.unwrap().spec_day_index() == today.spec_day_index() + 1,
{
    reveal_strlit("tm");
    reveal_strlit("t");
    reveal_strlit("today");
    reveal_strlit("tomorrow");
    assert(spec_lower_seq("tm"@) =~= "tm"@);
}

/// Shortcut law: the token `3d` always reads as three days after today.
pub proof fn lemma_token_three_days(today: Date, r: Option<Date>)
    requires
        spec_date_token("3d"@, today, r),
    ensures
        spec_shifted(today, 3, r),
        r is Some ==> r.unwrap().spec_day_index() == today.spec_day_index() + 3,
{
    reveal_strlit("3d");
    reveal_strlit("t");
    reveal_strlit("today");
    reveal_strlit("tm");
    reveal_strlit("tomorrow");
    let low = spec_lower_seq("3d"@);
    assert(low =~= "3d"@);
    assert(low.last() == 'd');
    let head = low.drop_last();
    assert(head =~= seq!['3']);
    assert(head.drop_last() =~= Seq::<char>::empty());
    assert(spec_digits_val(Seq::<char>::empty()) == 0);
    assert(spec_digits_val(head) == 3);
    assert(spec_suffix_num(low, 'd') == Some(3i64));
}

/// Shortcut law: a weekday token never reads as today itself, even when
/// today falls on that weekday.
pub proof fn lemma_token_weekday_not_today(today: Date, r: Option<Date>)
    requires
        spec_date_token("mon"@, today, r),
    ensures
        r != Some(today),
{
    reveal_strlit("mon");
    reveal_strlit("t");
    reveal_strlit("today");
    reveal_strlit("tm");
    reveal_strlit("tomorrow");
    reveal_strlit("tue");
    reveal_strlit("wed");
    reveal_strlit("thu");
    reveal_strlit("fri");
    reveal_strlit("sat");
    reveal_strlit("sun");
    let low = spec_lower_seq("mon"@);
    assert(low =~= "mon"@);
    assert(low.last() == 'n');
    assert(spec_suffix_num(low, 'd') is None);
    assert(spec_suffix_num(low, 'w') is None);
    assert(spec_weekday_token(low) == Some(0u8));
    match r {
        Some(d) => {
            assert(d.spec_day_index() > today.spec_day_index());
            if d == Some(today).unwrap() {
                assert(false);
            }
        },
        None => {},
    }
}

/// Shortcut law: the token `last` always reads as one minute before
/// midnight.
pub proof fn lemma_token_last(now: Time)
    ensures
        spec_time_token("last"@, now) == Some(Time { hour: 23, minute: 59 }),
{
    reveal_strlit("last");
    assert(spec_lower_seq("last"@) =~= "last"@);
}

/// Shortcut law: the token `2h` always reads as the current time moved two
/// whole hours, minutes kept, truncated to a time of day.
pub proof fn lemma_token_two_hours(now: Time)
    ensures
        spec_time_token("2h"@, now) == Some(
            Time { hour: (((now.hour + 2) % 24) as u8), minute: now.minute },
        ),
{
    reveal_strlit("2h");
    reveal_strlit("last");
    reveal_strlit("morning");
    reveal_strlit("noon");
    reveal_strlit("evening");
    reveal_strlit("night");
    let low = spec_lower_seq("2h"@);
    assert(low =~= "2h"@);
    assert(low.last() == 'h');
    let head = low.drop_last();
    assert(head =~= seq!['2']);
    assert(head.drop_last() =~= Seq::<char>::empty());
    assert(spec_digits_val(Seq::<char>::empty()) == 0);
    assert(spec_digits_val(head) == 2);
    assert(spec_suffix_num(low, 'h') == Some(2i64));
}

/// The time an explicit `HH:MM` text denotes: hour and minute of one or two
/// digits each, in range.
pub open spec fn spec_parse_hm(s: Seq<char>) -> Option<Time> {
    let ps = spec_split(s, ':');
    if ps.len() == 2 && 1 <= ps[0].len() <= 2 && spec_all_digits(ps[0]) && 1 <= ps[1].len() <= 2
        && spec_all_digits(ps[1]) {
        let h = spec_digits_val(ps[0]);
        let m = spec_digits_val(ps[1]);
        if h < 24 && m < 60 {
            Some(Time { hour: h as u8, minute: m as u8 })
        } else {
            None
        }
    } else {
        None
    }
}

/// Reads an explicit `HH:MM` time.
pub fn parse_hm(s: &str) -> (r: Option<Time>)
    ensures
        r == spec_parse_hm(s@),
        r is Some ==> r.unwrap().wf(),
{
    let v = chars_of(s);
    let ps = split_chars(&v, ':');
    proof {
        assert(ps@.map_values(|p: Vec<char>| p@) == spec_split(s@, ':'));
    }
    if ps.len() != 2 {
        return None;
    }
    let hs = &ps[0];
    let ms = &ps[1];
    proof {
        assert(hs@ == spec_split(s@, ':')[0]);
        assert(ms@ == spec_split(s@, ':')[1]);
    }
    if hs.len() < 1 || hs.len() > 2 || ms.len() < 1 || ms.len() > 2 {
        return None;
    }
    let h = match small_digits_val(hs) {
        Some(h) => h,
        None => {
            return None;
        },
    };
    let m = match small_digits_val(ms) {
        Some(m) => m,
        None => {
            return None;
        },
    };
    proof {
        crate::text::lemma_digits_val_bound(hs@);
        crate::text::lemma_digits_val_bound(ms@);
        reveal_with_fuel(crate::text::spec_pow10, 5);
    }
    if h < 24 && m < 60 {
        Some(Time { hour: h as u8, minute: m as u8 })
    } else {
        None
    }
}

/// The date an explicit `YYYY-MM-DD`-shaped text denotes, for a given
/// separator: a four-digit year, then month and day of one or two digits,
/// naming a valid calendar date.
pub open spec fn spec_parse_ymd(s: Seq<char>, sep: char) -> Option<Date> {
    let ps = spec_split(s, sep);
    if ps.len() == 3 && ps[0].len() == 4 && spec_all_digits(ps[0]) && 1 <= ps[1].len() <= 2
        && spec_all_digits(ps[1]) && 1 <= ps[2].len() <= 2 && spec_all_digits(ps[2]) {
        let d = Date {
            year: spec_digits_val(ps[0]) as u16,
            month: spec_digits_val(ps[1]) as u8,
            day: spec_digits_val(ps[2]) as u8,
        };
        if d.wf() {
            Some(d)
        } else {
            None
        }
    } else {
        None
    }
}

/// Reads an explicit year-month-day date with the given separator.
pub fn parse_ymd(s: &str, sep: char) -> (r: Option<Date>)
    ensures
        r == spec_parse_ymd(s@, sep),
        r is Some ==> r.unwrap().wf(),
{
    let v = chars_of(s);
    let ps = split_chars(&v, sep);
    proof {
        assert(ps@.map_values(|p: Vec<char>| p@) == spec_split(s@, sep));
    }
    if ps.len() != 3 {
        return None;
    }
    proof {
        assert(ps@[0]@ == spec_split(s@, sep)[0]);
        assert(ps@[1]@ == spec_split(s@, sep)[1]);
        assert(ps@[2]@ == spec_split(s@, sep)[2]);
    }
    if ps[0].len() != 4 || ps[1].len() < 1 || ps[1].len() > 2 || ps[2].len() < 1 || ps[2].len()
        > 2 {
        return None;
    }
    let y = match small_digits_val(&ps[0]) {
        Some(y) => y,
        None => {
            return None;
        },
    };
    let mo = match small_digits_val(&ps[1]) {
        Some(mo) => mo,
        None => {
            return None;
        },
    };
    let d = match small_digits_val(&ps[2]) {
        Some(d) => d,
        None => {
            return None;
        },
    };
    proof {
        crate::text::lemma_digits_val_bound(ps@[0]@);
        crate::text::lemma_digits_val_bound(ps@[1]@);
        crate::text::lemma_digits_val_bound(ps@[2]@);
        reveal_with_fuel(crate::text::spec_pow10, 5);
    }
    Date::new(y as u16, mo as u8, d as u8)
}

/// The date a `MM-DD`-shaped text denotes in a given year.
pub open spec fn spec_parse_md(s: Seq<char>, sep: char, year: u16) -> Option<Date> {
    let ps = spec_split(s, sep);
    if ps.len() == 2 && 1 <= ps[0].len() <= 2 && spec_all_digits(ps[0]) && 1 <= ps[1].len() <= 2
        && spec_all_digits(ps[1]) {
        let d = Date {
            year,
            month: spec_digits_val(ps[0]) as u8,
            day: spec_digits_val(ps[1]) as u8,
        };
        if d.wf() {
            Some(d)
        } else {
            None
        }
    } else {
        None
    }
}

/// Reads a month-day date with the given separator, in the given year.
pub fn parse_md(s: &str, sep: char, year: u16) -> (r: Option<Date>)
    ensures
        r == spec_parse_md(s@, sep, year),
        r is Some ==> r.unwrap().wf(),
{
    let v = chars_of(s);
    let ps = split_chars(&v, sep);
    proof {
        assert(ps@.map_values(|p: Vec<char>| p@) == spec_split(s@, sep));
    }
    if ps.len() != 2 {
        return None;
    }
    proof {
        assert(ps@[0]@ == spec_split(s@, sep)[0]);
        assert(ps@[1]@ == spec_split(s@, sep)[1]);
    }
    if ps[0].len() < 1 || ps[0].len() > 2 || ps[1].len() < 1 || ps[1].len() > 2 {
        return None;
    }
    let mo = match small_digits_val(&ps[0]) {
        Some(mo) => mo,
        None => {
            return None;
        },
    };
    let d = match small_digits_val(&ps[1]) {
        Some(d) => d,
        None => {
            return None;
        },
    };
    proof {
        crate::text::lemma_digits_val_bound(ps@[0]@);
        crate::text::lemma_digits_val_bound(ps@[1]@);
        reveal_with_fuel(crate::text::spec_pow10, 5);
    }
    Date::new(year, mo as u8, d as u8)
}

/// The time a time field resolves to: end of day when empty, else a
/// shortcut token, else explicit `HH:MM`, else end of day.
pub open spec fn spec_resolve_time(s: Seq<char>, now: Time) -> Time {
    if spec_trim(s).len() == 0 {
        Time { hour: 23, minute: 59 }
    } else {
        match spec_time_token(s, now) {
            Some(t) => t,
            None => match spec_parse_hm(s) {
                Some(t) => t,
                None => Time { hour: 23, minute: 59 },
            },
        }
    }
}

/// Resolves a time field against an explicit current time; never fails.
pub fn resolve_time(s: &str, now: Time) -> (r: Time)
    requires
        now.wf(),
    ensures
        r == spec_resolve_time(s@, now),
        r.wf(),
{
    let v = chars_of(s);
    let t = trim_chars(&v);
    if t.len() == 0 {
        return Time { hour: 23, minute: 59 };
    }
    match shortcut_time_for(s, now) {
        Some(t) => t,
        None => match parse_hm(s) {
            Some(t) => t,
            None => Time { hour: 23, minute: 59 },
        },
    }
}

/// Whether the lower-cased text is a date shortcut token.
fn is_date_token(low: &Vec<char>) -> (b: bool)
    ensures
        b == spec_is_date_token(low@),
{
    if eq_str(low, "today") || eq_str(low, "t") || eq_str(low, "tomorrow") || eq_str(low, "tm") {
        return true;
    }
    if suffix_num(low, 'd').is_some() {
        return true;
    }
    if suffix_num(low, 'w').is_some() {
        return true;
    }
    weekday_token(low).is_some()
}

/// What a date field resolves to against `today`: a shortcut token when the
/// text is one, else an explicit `YYYY-MM-DD` date.
pub open spec fn spec_date_resolution(s: Seq<char>, today: Date, rd: Option<Date>) -> bool {
    if spec_is_date_token(spec_lower_seq(s)) {
        spec_date_token(s, today, rd)
    } else {
        rd == spec_parse_ymd(s, '-')
    }
}

/// Resolves a date field against an explicit `today`.
pub fn resolve_date(s: &str, today: Date) -> (r: Option<Date>)
    requires
        today.wf(),
    ensures
        spec_date_resolution(s@, today, r),
        r is Some ==> r.unwrap().wf(),
{
    let low = lower_chars(s);
    if is_date_token(&low) {
        let r = shortcut_date_for(s, today);
        proof {
            if r is Some {
                assert(spec_date_token(s@, today, r));
            }
        }
        r
    } else {
        parse_ymd(s, '-')
    }
}

/// Combines a date field and a time field against an explicit current civil
/// time: an empty date means no due instant; an unreadable date fails; the
/// time field always resolves, to 23:59 when absent or unreadable.
pub fn resolve_civil(date_text: &str, time_text: &str, now: CivilDateTime) -> (r: Option<
    CivilDateTime,
>)
    requires
        now.wf(),
    ensures
        match r {
            Some(c) => {
                &&& c.wf()
                &&& spec_trim(date_text@).len() > 0
                &&& spec_date_resolution(date_text@, now.date, Some(c.date))
                &&& c.time == spec_resolve_time(time_text@, now.time)
            },
            None => spec_trim(date_text@).len() == 0 || spec_date_resolution(
                date_text@,
                now.date,
                None,
            ),
        },
{
    let dv = chars_of(date_text);
    let dt = trim_chars(&dv);
    if dt.len() == 0 {
        return None;
    }
    match resolve_date(date_text, now.date) {
        Some(date) => {
            let time = resolve_time(time_text, now.time);
            Some(CivilDateTime { date, time })
        },
        None => None,
    }
}

/// Converts a local civil time to an instant through the machine's time
/// zone.  Nothing pins which instant the zone yields; any result is a
/// well-formed instant.
pub fn civil_to_utc_instant(c: CivilDateTime) -> (r: Option<u64>)
    requires
        c.wf(),
    ensures
        match r {
            Some(i) => i < spec_day_count() * 86400,
            None => true,
        },
{
    match clock::local_civil_to_utc_parts(c.date, c.time) {
        Some(p) => match clock::civil_of_parts(p) {
            Some(u) => Some(crate::calendar::instant_of_civil(u)),
            None => None,
        },
        None => None,
    }
}

/// Reads a date and a time field against the current local time and converts
/// them to a due instant.  An empty date field always means no instant; the
/// exact field grammars live in `resolve_civil` and its parts.
pub fn parse_full_date_time(date_str: &str, time_str: &str) -> (r: Option<u64>)
    ensures
        spec_trim(date_str@).len() == 0 ==> r is None,
        (!spec_is_date_token(spec_lower_seq(date_str@)) && spec_parse_ymd(date_str@, '-')
            is None) ==> r is None,
        match r {
            Some(i) => i < spec_day_count() * 86400,
            None => true,
        },
{
    let p = clock::now_local_parts();
    match clock::civil_of_parts(p) {
        Some(now) => match resolve_civil(date_str, time_str, now) {
            Some(c) => civil_to_utc_instant(c),
            None => None,
        },
        None => None,
    }
}

/// The priority a trimmed text names, case-insensitively; anything
/// unrecognized is no priority.
pub open spec fn spec_parse_priority(s: Seq<char>) -> Priority {
    let low = spec_lower_seq(spec_trim(s));
    if low == "high"@ {
        Priority::High
    } else if low == "medium"@ {
        Priority::Medium
    } else if low == "low"@ {
        Priority::Low
    } else {
        Priority::Unset
    }
}

/// Reads a priority name.
pub fn parse_priority(s: &str) -> (r: Priority)
    ensures
        r == spec_parse_priority(s@),
{
    let v = chars_of(s);
    let t = trim_chars(&v);
    let low = crate::text::lower_vec(&t);
    if eq_str(&low, "high") {
        Priority::High
    } else if eq_str(&low, "medium") {
        Priority::Medium
    } else if eq_str(&low, "low") {
        Priority::Low
    } else {
        Priority::Unset
    }
}

/// The tags of a comma-separated list: each piece trimmed, empty pieces
/// dropped, order and case kept.
pub open spec fn spec_tags_of_pieces(ps: Seq<Seq<char>>) -> Seq<Seq<char>>
    decreases ps.len(),
{
    if ps.len() == 0 {
        Seq::empty()
    } else {
        let rest = spec_tags_of_pieces(ps.drop_last());
        let t = spec_trim(ps.last());
        if t.len() > 0 {
            rest.push(t)
        } else {
            rest
        }
    }
}

pub open spec fn spec_parse_tags(s: Seq<char>) -> Seq<Seq<char>> {
    spec_tags_of_pieces(spec_split(s, ','))
}

/// Reads a comma-separated tag list.
pub fn parse_tags(s: &str) -> (r: Vec<String>)
    ensures
        r@.map_values(|t: String| t@) == spec_parse_tags(s@),
{
    let v = chars_of(s);
    let ps = split_chars(&v, ',');
    let ghost pieces = ps@.map_values(|p: Vec<char>| p@);
    proof {
        assert(pieces == spec_split(s@, ','));
    }
    let mut r: Vec<String> = Vec::new();
    let mut i: usize = 0;
    proof {
        assert(pieces.subrange(0, 0) =~= Seq::<Seq<char>>::empty());
        assert(r@.map_values(|t: String| t@) =~= Seq::<Seq<char>>::empty());
    }
    while i < ps.len()
        invariant
            pieces == ps@.map_values(|p: Vec<char>| p@),
            pieces == spec_split(s@, ','),
            i <= ps@.len(),
            r@.map_values(|t: String| t@) == spec_tags_of_pieces(pieces.subrange(0, i as int)),
        decreases ps@.len() - i,
    {
        let t = trim_chars(&ps[i]);
        proof {
            let pre = pieces.subrange(0, i as int);
            let cur = pieces.subrange(0, i + 1);
            assert(cur.drop_last() =~= pre);
            assert(cur.last() == pieces[i as int]);
            assert(ps@[i as int]@ == pieces[i as int]);
        }
        if t.len() > 0 {
            let tag = string_of_chars(&t);
            proof {
                let old_views = r@.map_values(|x: String| x@);
                assert((r@ + seq![tag]).map_values(|x: String| x@) =~= old_views.push(tag@));
            }
            r.push(tag);
        }
        i = i + 1;
    }
    proof {
        assert(pieces.subrange(0, pieces.len() as int) =~= pieces);
    }
    r
}

/// The dependency ids of a comma-separated list: each piece trimmed and
/// read as an `i64`, unreadable pieces silently dropped.
pub open spec fn spec_deps_of_pieces(ps: Seq<Seq<char>>) -> Seq<i64>
    decreases ps.len(),
{
    if ps.len() == 0 {
        Seq::empty()
    } else {
        let rest = spec_deps_of_pieces(ps.drop_last());
        match spec_parse_i64(spec_trim(ps.last())) {
            Some(v) => rest.push(v),
            None => rest,
        }
    }
}

pub open spec fn spec_parse_deps(s: Seq<char>) -> Seq<i64> {
    spec_deps_of_pieces(spec_split(s, ','))
}

/// Reads a comma-separated dependency-id list.
pub fn parse_deps(s: &str) -> (r: Vec<i64>)
    ensures
        r@ == spec_parse_deps(s@),
{
    let v = chars_of(s);
    let ps = split_chars(&v, ',');
    let ghost pieces = ps@.map_values(|p: Vec<char>| p@);
    proof {
        assert(pieces == spec_split(s@, ','));
        assert(pieces.subrange(0, 0) =~= Seq::<Seq<char>>::empty());
    }
    let mut r: Vec<i64> = Vec::new();
    let mut i: usize = 0;
    while i < ps.len()
        invariant
            pieces == ps@.map_values(|p: Vec<char>| p@),
            pieces == spec_split(s@, ','),
            i <= ps@.len(),
            r@ == spec_deps_of_pieces(pieces.subrange(0, i as int)),
        decreases ps@.len() - i,
    {
        let t = trim_chars(&ps[i]);
        proof {
            let pre = pieces.subrange(0, i as int);
            let cur = pieces.subrange(0, i + 1);
            assert(cur.drop_last() =~= pre);
            assert(cur.last() == pieces[i as int]);
            assert(ps@[i as int]@ == pieces[i as int]);
        }
        match parse_i64(&t) {
            Some(n) => {
                r.push(n);
            },
            None => {},
        }
        i = i + 1;
    }
    proof {
        assert(pieces.subrange(0, pieces.len() as int) =~= pieces);
    }
    r
}

} // verus!
