use vstd::prelude::*;

use crate::schedule::CalendarSpec;

verus! {

/// The decimal digit for `d < 10`.
pub open spec fn digit(d: nat) -> char {
    ((d + 48) as u8) as char
}

/// The decimal notation of `n`, without leading zeros.
pub open spec fn dec(n: nat) -> Seq<char>
    decreases n,
{
    if n < 10 {
        seq![digit(n)]
    } else {
        dec(n / 10).push(digit(n % 10))
    }
}

/// The values in decimal, separated by commas.
pub open spec fn dec_list(vs: Seq<u8>) -> Seq<char>
    decreases vs.len(),
{
    if vs.len() == 0 {
        Seq::empty()
    } else if vs.len() == 1 {
        dec(vs[0] as nat)
    } else {
        dec_list(vs.drop_last()) + seq![','] + dec(vs.last() as nat)
    }
}

/// The three-letter English name of a weekday, 0 being Sunday.
pub open spec fn day_name(d: u8) -> Seq<char> {
    if d == 0 {
        seq!['S', 'u', 'n']
    } else if d == 1 {
        seq!['M', 'o', 'n']
    } else if d == 2 {
        seq!['T', 'u', 'e']
    } else if d == 3 {
        seq!['W', 'e', 'd']
    } else if d == 4 {
        seq!['T', 'h', 'u']
    } else if d == 5 {
        seq!['F', 'r', 'i']
    } else {
        seq!['S', 'a', 't']
    }
}

/// Weekday names, separated by commas.
pub open spec fn name_list(ds: Seq<u8>) -> Seq<char>
    decreases ds.len(),
{
    if ds.len() == 0 {
        Seq::empty()
    } else if ds.len() == 1 {
        day_name(ds[0])
    } else {
        name_list(ds.drop_last()) + seq![','] + day_name(ds.last())
    }
}

/// A numeric slot: `*` when open, else its values.
pub open spec fn slot_text(s: Option<Seq<u8>>) -> Seq<char> {
    match s {
        None => seq!['*'],
        Some(vs) => dec_list(vs),
    }
}

/// A calendar expression in the `[weekdays ]*-month-day hour:minute:00` form.
pub open spec fn calendar_text(e: CalendarSpec) -> Seq<char> {
    let wd = match e.weekdays {
        None => Seq::empty(),
        Some(ds) => name_list(ds) + seq![' '],
    };
    wd + seq!['*', '-'] + slot_text(e.months) + seq!['-'] + slot_text(e.days) + seq![' ']
        + slot_text(e.hours) + seq![':'] + slot_text(e.minutes) + seq![':', '0', '0']
}

/// Appends `s` to `out`.
pub fn push_all(out: &mut Vec<char>, s: &[char])
    ensures
        final(out)@ == old(out)@ + s@,
{
    let mut i: usize = 0;
    while i < s.len()
        invariant
            i <= s.len(),
            out@ == old(out)@ + s@.take(i as int),
        decreases s.len() - i,
    {
        out.push(s[i]);
        assert(s@.take(i + 1) == s@.take(i as int).push(s@[i as int]));
        i = i + 1;
    }
    assert(s@.take(s.len() as int) == s@);
}

/// Appends the characters of `s`.
pub fn push_str(out: &mut Vec<char>, s: &str)
    ensures
        final(out)@ == old(out)@ + s@,
{
    let cs = chars_of(s);
    push_all(out, cs.as_slice());
}

fn digit_char(d: u8) -> (c: char)
    requires
        d < 10,
    ensures
        c == digit(d as nat),
{
    (d + 48) as char
}

/// Appends the decimal notation of `n`.
pub fn push_dec(out: &mut Vec<char>, n: u64)
    ensures
        final(out)@ == old(out)@ + dec(n as nat),
    decreases n,
{
    if n < 10 {
        out.push(digit_char(n as u8));
    } else {
        push_dec(out, n / 10);
        out.push(digit_char((n % 10) as u8));
        assert(dec(n as nat) == dec((n / 10) as nat).push(digit((n % 10) as nat)));
    }
}

/// Appends the values in decimal, separated by commas.
pub fn push_dec_list(out: &mut Vec<char>, vs: &Vec<u8>)
    ensures
        final(out)@ == old(out)@ + dec_list(vs@),
{
    let mut i: usize = 0;
    while i < vs.len()
        invariant
            i <= vs.len(),
            out@ == old(out)@ + dec_list(vs@.take(i as int)),
        decreases vs.len() - i,
    {
        if i > 0 {
            out.push(',');
        }
        push_dec(out, vs[i] as u64);
        assert(vs@.take(i + 1).drop_last() == vs@.take(i as int));
        proof {
            let t = vs@.take(i + 1);
            if i == 0 {
                assert(dec_list(t) == dec(vs@[0] as nat));
                assert(dec_list(vs@.take(0)) == Seq::<char>::empty());
            } else {
                assert(dec_list(t) == dec_list(vs@.take(i as int)) + seq![','] + dec(vs@[i as int] as nat));
            }
            assert(out@ == old(out)@ + dec_list(t));
        }
        i = i + 1;
    }
    assert(vs@.take(vs.len() as int) == vs@);
}

fn push_day_name(out: &mut Vec<char>, d: u8)
    ensures
        final(out)@ == old(out)@ + day_name(d),
{
    let name: [char; 3] = if d == 0 {
        ['S', 'u', 'n']
    } else if d == 1 {
        ['M', 'o', 'n']
    } else if d == 2 {
        ['T', 'u', 'e']
    } else if d == 3 {
        ['W', 'e', 'd']
    } else if d == 4 {
        ['T', 'h', 'u']
    } else if d == 5 {
        ['F', 'r', 'i']
    } else {
        ['S', 'a', 't']
    };
    push_all(out, &name);
    assert(name@ == day_name(d));
}


fn push_name_list(out: &mut Vec<char>, ds: &Vec<u8>)
    ensures
        final(out)@ == old(out)@ + name_list(ds@),
{
    let mut i: usize = 0;
    while i < ds.len()
        invariant
            i <= ds.len(),
            out@ == old(out)@ + name_list(ds@.take(i as int)),
        decreases ds.len() - i,
    {
        if i > 0 {
            out.push(',');
        }
        push_day_name(out, ds[i]);
        proof {
            let t = ds@.take(i + 1);
            assert(t.drop_last() == ds@.take(i as int));
            if i == 0 {
                assert(name_list(ds@.take(0)) == Seq::<char>::empty());
            }
        }
        i = i + 1;
    }
    assert(ds@.take(ds.len() as int) == ds@);
}

fn push_slot(out: &mut Vec<char>, slot: &Option<Vec<u8>>)
    ensures
        final(out)@ == old(out)@ + slot_text(crate::schedule::slot_view(*slot)),
{
    match slot {
        None => out.push('*'),
        Some(vs) => push_dec_list(out, vs),
    }
}

/// Appends a calendar expression in its textual form.
pub fn push_calendar(out: &mut Vec<char>, e: &crate::schedule::CalendarExpr)
    ensures
        final(out)@ == old(out)@ + calendar_text(e@),
{
    let ghost start = out@;
    match &e.weekdays {
        None => {},
        Some(ds) => {
            push_name_list(out, ds);
            out.push(' ');
        },
    }
    let ghost wd = out@.skip(start.len() as int);
    push_all(out, &['*', '-']);
    push_slot(out, &e.months);
    out.push('-');
    push_slot(out, &e.days);
    out.push(' ');
    push_slot(out, &e.hours);
    out.push(':');
    push_slot(out, &e.minutes);
    push_all(out, &[':', '0', '0']);
    proof {
        let w = match e@.weekdays {
            None => Seq::empty(),
            Some(ds) => name_list(ds) + seq![' '],
        };
        assert(wd == w);
        assert(out@ == start + calendar_text(e@));
    }
}


/// Relies on `str::chars` collected into a `Vec`: the characters of `s`, in order.
#[verifier::external_body]
pub(crate) fn chars_of(s: &str) -> (r: Vec<char>)
    ensures
        r@ == s@,
{
    s.chars().collect()
}

/// Relies on collecting characters into a `String`: the same characters, in order.
#[verifier::external_body]
pub(crate) fn string_of(v: &[char]) -> (r: String)
    ensures
        r@ == v@,
{
    v.iter().collect()
}


/// Every character of a decimal notation is a digit, and there is at least one.
pub proof fn lemma_dec_digits(n: nat)
    ensures
        dec(n).len() >= 1,
        n >= 10 ==> dec(n).len() >= 2,
        forall|i: int| 0 <= i < dec(n).len() ==> '0' <= #[trigger] dec(n)[i] && dec(n)[i] <= '9',
    decreases n,
{
    if n >= 10 {
        lemma_dec_digits(n / 10);
    }
}

proof fn lemma_digit_injective(a: nat, b: nat)
    requires
        a < 10,
        b < 10,
        digit(a) == digit(b),
    ensures
        a == b,
{
    assert(((a + 48) as u8) as char == ((b + 48) as u8) as char);
    assert((((a + 48) as u8) as char) as u32 == (a + 48) as u32);
    assert((((b + 48) as u8) as char) as u32 == (b + 48) as u32);
}

/// Distinct numbers have distinct decimal notations.
pub proof fn lemma_dec_injective(a: nat, b: nat)
    requires
        dec(a) == dec(b),
    ensures
        a == b,
    decreases a,
{
    lemma_dec_digits(a);
    lemma_dec_digits(b);
    if a < 10 && b < 10 {
        assert(dec(a) == seq![digit(a)]);
        assert(dec(b) == seq![digit(b)]);
        assert(seq![digit(a)][0] == digit(a));
        assert(seq![digit(b)][0] == digit(b));
        assert(digit(a) == digit(b));
        lemma_digit_injective(a, b);
    } else if a >= 10 && b >= 10 {
        assert(dec(a) == dec(a / 10).push(digit(a % 10)));
        assert(dec(b) == dec(b / 10).push(digit(b % 10)));
        assert(dec(a).last() == digit(a % 10));
        assert(dec(b).last() == digit(b % 10));
        lemma_digit_injective(a % 10, b % 10);
        assert(dec(a / 10) == dec(a).drop_last());
        assert(dec(b / 10) == dec(b).drop_last());
        lemma_dec_injective(a / 10, b / 10);
    } else {
        assert(dec(a).len() != dec(b).len());
    }
}

} // verus!
