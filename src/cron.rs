//! Five-field schedule expressions (minute, hour, day of month, month,
//! weekday) matched against a wall-clock instant.
use chrono::{Datelike, Timelike};
use vstd::prelude::*;

use crate::text::{
    all_digits, chars_of, digit_value, digits_value, is_white_space, parse_unsigned,
    parse_unsigned_chars, unsigned_digits, white_space,
};

verus! {

/// The calendar components of an instant that an expression is matched
/// against; `weekday` counts from Sunday = 0.
#[derive(Clone, Copy, Debug, PartialEq, Eq)]
pub struct Instant {
    pub minute: u32,
    pub hour: u32,
    pub day: u32,
    pub month: u32,
    pub weekday: u32,
}

impl Instant {
    pub open spec fn wf(&self) -> bool {
        &&& self.minute < 60
        &&& self.hour < 24
        &&& 1 <= self.day <= 31
        &&& 1 <= self.month <= 12
        &&& self.weekday < 7
    }

    /// The component that field `i` of an expression is matched against.
    pub open spec fn component(&self, i: int) -> nat {
        if i == 0 {
            self.minute as nat
        } else if i == 1 {
            self.hour as nat
        } else if i == 2 {
            self.day as nat
        } else if i == 3 {
            self.month as nat
        } else {
            self.weekday as nat
        }
    }
}

/// Relies on chrono's `From<SystemTime> for DateTime<Utc>` (which also takes
/// a clock set before 1970) and the `Timelike` / `Datelike` accessors, whose
/// documented ranges are minute 0..=59, hour 0..=23, day 1..=31, month
/// 1..=12 and `num_days_from_sunday` 0..=6.
#[verifier::external_body]
fn now_utc() -> (t: Instant)
    ensures
        t.wf(),
{
    let now = chrono::DateTime::<chrono::Utc>::from(std::time::SystemTime::now());
    Instant {
        minute: now.minute(),
        hour: now.hour(),
        day: now.day(),
        month: now.month(),
        weekday: now.weekday().num_days_from_sunday(),
    }
}

/// Splitting state after the first `n` characters: the finished fields and
/// the field being read.
pub open spec fn split_state(s: Seq<char>, n: nat) -> (Seq<Seq<char>>, Seq<char>)
    decreases n,
{
    if n == 0 {
        (Seq::empty(), Seq::empty())
    } else {
        let (done, cur) = split_state(s, (n - 1) as nat);
        let c = s[n - 1];
        if white_space(c) {
            if cur.len() > 0 {
                (done.push(cur), Seq::empty())
            } else {
                (done, cur)
            }
        } else {
            (done, cur.push(c))
        }
    }
}

/// The maximal runs of non-whitespace characters of `s`, in order.
pub open spec fn fields_of(s: Seq<char>) -> Seq<Seq<char>> {
    let (done, cur) = split_state(s, s.len());
    if cur.len() > 0 {
        done.push(cur)
    } else {
        done
    }
}

/// Whether one field matches a component value: `*` matches anything, a
/// number matches itself, `*/N` matches multiples of a non-zero `N`; any
/// other text matches nothing.
pub open spec fn field_matches(f: Seq<char>, v: nat) -> bool {
    if f =~= seq!['*'] {
        true
    } else if parse_unsigned(f, u32::MAX as nat) is Some {
        parse_unsigned(f, u32::MAX as nat) == Some(v)
    } else if f.len() >= 2 && f[0] == '*' && f[1] == '/' {
        match parse_unsigned(f.subrange(2, f.len() as int), u32::MAX as nat) {
            Some(n) => n != 0 && v % n == 0,
            None => false,
        }
    } else {
        false
    }
}

/// Whether an expression matches an instant: exactly five fields, each of
/// which matches its component (all five together, day of month and weekday
/// included).
pub open spec fn expression_matches(e: Seq<char>, t: Instant) -> bool {
    let fs = fields_of(e);
    &&& fs.len() == 5
    &&& forall|i: int| 0 <= i < 5 ==> field_matches(#[trigger] fs[i], t.component(i))
}

/// Splits `s` into its whitespace-separated fields.
pub fn split_fields(s: &Vec<char>) -> (r: Vec<Vec<char>>)
    ensures
        r@.len() == fields_of(s@).len(),
        forall|i: int| 0 <= i < r@.len() ==> #[trigger] r@[i]@ == fields_of(s@)[i],
{
    let mut done: Vec<Vec<char>> = Vec::new();
    let mut cur: Vec<char> = Vec::new();
    let mut i: usize = 0;
    while i < s.len()
        invariant
            i <= s@.len(),
            split_state(s@, i as nat).0.len() == done@.len(),
            forall|k: int|
                0 <= k < done@.len() ==> #[trigger] done@[k]@ == split_state(s@, i as nat).0[k],
            split_state(s@, i as nat).1 == cur@,
        decreases s@.len() - i,
    {
        let c = s[i];
        let ghost prev = split_state(s@, i as nat);
        assert(split_state(s@, (i + 1) as nat) == {
            let (d, k) = prev;
            if white_space(c) {
                if k.len() > 0 {
                    (d.push(k), Seq::<char>::empty())
                } else {
                    (d, k)
                }
            } else {
                (d, k.push(c))
            }
        });
        if is_white_space(c) {
            if cur.len() > 0 {
                done.push(cur);
                cur = Vec::new();
                assert(cur@ =~= Seq::<char>::empty());
            }
        } else {
            cur.push(c);
        }
        i = i + 1;
    }
    if cur.len() > 0 {
        done.push(cur);
    }
    done
}

fn field_matches_chars(f: &Vec<char>, value: u32) -> (r: bool)
    ensures
        r == field_matches(f@, value as nat),
{
    if f.len() == 1 && f[0] == '*' {
        assert(f@ =~= seq!['*']);
        return true;
    }
    assert(!(f@ =~= seq!['*']));
    match parse_unsigned_chars(f.as_slice(), 0xFFFF_FFFF) {
        Some(n) => {
            return n == value as u64;
        },
        None => {},
    }
    if f.len() >= 2 && f[0] == '*' && f[1] == '/' {
        let tail = f.as_slice().split_at(2).1;
        assert(tail@ =~= f@.subrange(2, f@.len() as int));
        match parse_unsigned_chars(tail, 0xFFFF_FFFF) {
            Some(n) => n != 0 && value as u64 % n == 0,
            None => false,
        }
    } else {
        false
    }
}

/// Whether one field of an expression matches a component value.
pub fn matches_cron_field(field: &str, value: u32) -> (r: bool)
    ensures
        r == field_matches(field@, value as nat),
{
    let f = chars_of(field);
    field_matches_chars(&f, value)
}

/// Whether `expression` matches the instant `t`.
pub fn matches(expression: &str, t: &Instant) -> (r: bool)
    ensures
        r == expression_matches(expression@, *t),
{
    let e = chars_of(expression);
    let fs = split_fields(&e);
    if fs.len() != 5 {
        return false;
    }
    let values = [t.minute, t.hour, t.day, t.month, t.weekday];
    let mut i: usize = 0;
    while i < 5
        invariant
            i <= 5,
            fs@.len() == 5,
            fs@.len() == fields_of(e@).len(),
            e@ == expression@,
            forall|k: int| 0 <= k < fs@.len() ==> #[trigger] fs@[k]@ == fields_of(e@)[k],
            values@ == seq![t.minute, t.hour, t.day, t.month, t.weekday],
            forall|k: int| 0 <= k < i ==> field_matches(#[trigger] fields_of(e@)[k], t.component(k)),
        decreases 5 - i,
    {
        assert(values@[i as int] as nat == t.component(i as int));
        if !field_matches_chars(&fs[i], values[i]) {
            assert(fs@[i as int]@ == fields_of(e@)[i as int]);
            return false;
        }
        i = i + 1;
    }
    true
}

/// The current UTC time as calendar components.
pub fn now_instant() -> (t: Instant)
    ensures
        t.wf(),
{
    now_utc()
}

/// Whether `expression` matches the current UTC time. The time is read
/// afresh on each call, so only some valid instant can be named.
pub fn should_run_now(expression: &str) -> (r: bool)
    ensures
        exists|t: Instant| t.wf() && r == expression_matches(expression@, t),
{
    let t = now_instant();
    crate::cron::matches(expression, &t)
}

/// An expression that does not split into exactly five fields matches no
/// instant.
pub proof fn lemma_five_fields_required(e: Seq<char>, t: Instant)
    requires
        fields_of(e).len() != 5,
    ensures
        !expression_matches(e, t),
{
}

proof fn lemma_single_digit(c: char)
    requires
        '0' <= c <= '9',
    ensures
        parse_unsigned(seq![c], u32::MAX as nat) == Some((c as nat - '0' as nat) as nat),
{
    let s = seq![c];
    assert(unsigned_digits(s) == s);
    assert(s.drop_last() =~= Seq::<char>::empty());
    assert(digits_value(s) == digits_value(s.drop_last()) * 10 + digit_value(s.last()));
    assert(all_digits(s));
}

/// The expression `0 3 * * 0` matches exactly the instants at 03:00 on a
/// Sunday, whatever their day of month and month.
pub proof fn lemma_sunday_three_am(t: Instant)
    ensures
        expression_matches("0 3 * * 0"@, t) <==> (t.minute == 0 && t.hour == 3 && t.weekday == 0),
{
    reveal_strlit("0 3 * * 0");
    let e = "0 3 * * 0"@;
    reveal_with_fuel(split_state, 10);
    let z = seq!['0'];
    let th = seq!['3'];
    let st = seq!['*'];
    assert(split_state(e, 9) == (seq![z, th, st, st], z));
    assert(fields_of(e) =~= seq![z, th, st, st, z]);
    lemma_single_digit('0');
    lemma_single_digit('3');
    assert(!(z =~= seq!['*']));
    assert(!(th =~= seq!['*']));
    assert(field_matches(st, t.component(2)));
    assert(field_matches(st, t.component(3)));
    assert(field_matches(z, t.minute as nat) <==> t.minute == 0);
    assert(field_matches(th, t.hour as nat) <==> t.hour == 3);
    assert(field_matches(z, t.weekday as nat) <==> t.weekday == 0);
    if t.minute == 0 && t.hour == 3 && t.weekday == 0 {
        assert forall|i: int| 0 <= i < 5 implies field_matches(#[trigger] fields_of(e)[i], t.component(i)) by {
            assert(fields_of(e)[i] == seq![z, th, st, st, z][i]);
        }
    }
    if expression_matches(e, t) {
        assert(field_matches(fields_of(e)[0], t.component(0)));
        assert(field_matches(fields_of(e)[1], t.component(1)));
        assert(field_matches(fields_of(e)[4], t.component(4)));
    }
}

} // verus!
