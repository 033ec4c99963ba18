use vstd::prelude::*;

use crate::field::{
    expand, expansion, field_hits, field_matches, is_star, lemma_expansion,
    lemma_values_below_ext, slot_admits, star, values_below, FieldItem,
};

verus! {

/// The five numeric fields of a cron schedule.
#[derive(Clone, Debug)]
pub struct CronSchedule {
    pub minutes: Vec<FieldItem>,
    pub hours: Vec<FieldItem>,
    pub days: Vec<FieldItem>,
    pub months: Vec<FieldItem>,
    pub weekdays: Vec<FieldItem>,
}

/// The five fields as sequences of items.
pub struct CronSpec {
    pub minutes: Seq<FieldItem>,
    pub hours: Seq<FieldItem>,
    pub days: Seq<FieldItem>,
    pub months: Seq<FieldItem>,
    pub weekdays: Seq<FieldItem>,
}

impl View for CronSchedule {
    type V = CronSpec;

    open spec fn view(&self) -> CronSpec {
        CronSpec {
            minutes: self.minutes@,
            hours: self.hours@,
            days: self.days@,
            months: self.months@,
            weekdays: self.weekdays@,
        }
    }
}

/// One minute of the calendar, as the five values that cron compares.
#[derive(Clone, Copy, Debug, PartialEq, Eq, Structural)]
pub struct Moment {
    pub minute: u8,
    pub hour: u8,
    pub day: u8,
    pub month: u8,
    /// 0 is Sunday.
    pub weekday: u8,
}

/// A calendar expression: every slot must admit its value (conjunction).
#[derive(Clone, Debug)]
pub struct CalendarExpr {
    pub minutes: Option<Vec<u8>>,
    pub hours: Option<Vec<u8>>,
    pub days: Option<Vec<u8>>,
    pub months: Option<Vec<u8>>,
    pub weekdays: Option<Vec<u8>>,
}

/// The mathematical content of a calendar expression.
pub struct CalendarSpec {
    pub minutes: Option<Seq<u8>>,
    pub hours: Option<Seq<u8>>,
    pub days: Option<Seq<u8>>,
    pub months: Option<Seq<u8>>,
    pub weekdays: Option<Seq<u8>>,
}

pub open spec fn slot_view(s: Option<Vec<u8>>) -> Option<Seq<u8>> {
    match s {
        None => None,
        Some(v) => Some(v@),
    }
}

impl View for CalendarExpr {
    type V = CalendarSpec;

    open spec fn view(&self) -> CalendarSpec {
        CalendarSpec {
            minutes: slot_view(self.minutes),
            hours: slot_view(self.hours),
            days: slot_view(self.days),
            months: slot_view(self.months),
            weekdays: slot_view(self.weekdays),
        }
    }
}

pub open spec fn moment_valid(t: Moment) -> bool {
    t.minute <= 59 && t.hour <= 23 && 1 <= t.day <= 31 && 1 <= t.month <= 12 && t.weekday <= 6
}

/// When cron runs a schedule: time and month fields must match, and the two
/// day fields are joined by "or" when both are restricted, by "and" otherwise.
pub open spec fn cron_fires(s: CronSpec, t: Moment) -> bool {
    let dm = field_hits(s.days, 1, t.day as int, false);
    let wm = field_hits(s.weekdays, 0, t.weekday as int, true);
    &&& field_hits(s.minutes, 0, t.minute as int, false)
    &&& field_hits(s.hours, 0, t.hour as int, false)
    &&& field_hits(s.months, 1, t.month as int, false)
    &&& if is_star(s.days) || is_star(s.weekdays) {
        dm && wm
    } else {
        dm || wm
    }
}

/// When a calendar expression fires: every slot admits its value.
pub open spec fn expr_fires(e: CalendarSpec, t: Moment) -> bool {
    &&& slot_admits(e.minutes, t.minute as int)
    &&& slot_admits(e.hours, t.hour as int)
    &&& slot_admits(e.days, t.day as int)
    &&& slot_admits(e.months, t.month as int)
    &&& slot_admits(e.weekdays, t.weekday as int)
}

/// Some expression of the list fires.
pub open spec fn any_fires(es: Seq<CalendarSpec>, t: Moment) -> bool {
    exists|i: int| 0 <= i < es.len() && expr_fires(#[trigger] es[i], t)
}

/// Both day fields are restricted, so cron joins them by "or".
pub open spec fn days_split(s: CronSpec) -> bool {
    !is_star(s.days) && !is_star(s.weekdays)
}

/// All fields expanded and joined by "and".
pub open spec fn joint_expr(s: CronSpec) -> CalendarSpec {
    CalendarSpec {
        minutes: expansion(s.minutes, 0, 59, false),
        hours: expansion(s.hours, 0, 23, false),
        days: expansion(s.days, 1, 31, false),
        months: expansion(s.months, 1, 12, false),
        weekdays: expansion(s.weekdays, 0, 6, true),
    }
}

/// The expressions that a schedule translates to: one, or, where both day
/// fields are restricted, one with each of them in turn left open.
pub open spec fn translation(s: CronSpec) -> Seq<CalendarSpec> {
    let e = joint_expr(s);
    if days_split(s) {
        seq![CalendarSpec { weekdays: None, ..e }, CalendarSpec { days: None, ..e }]
    } else {
        seq![e]
    }
}

fn joint(s: &CronSchedule) -> (r: CalendarExpr)
    ensures
        r@ == joint_expr(s@),
{
    CalendarExpr {
        minutes: expand(&s.minutes, 0, 59, false),
        hours: expand(&s.hours, 0, 23, false),
        days: expand(&s.days, 1, 31, false),
        months: expand(&s.months, 1, 12, false),
        weekdays: expand(&s.weekdays, 0, 6, true),
    }
}

/// Translates a cron schedule into calendar expressions.
pub fn translate(s: &CronSchedule) -> (r: Vec<CalendarExpr>)
    ensures
        r@.len() == translation(s@).len(),
        forall|i: int| 0 <= i < r@.len() ==> #[trigger] r@[i]@ == translation(s@)[i],
{
    let mut r: Vec<CalendarExpr> = Vec::new();
    if !star(&s.days) && !star(&s.weekdays) {
        let first = CalendarExpr { weekdays: None, ..joint(s) };
        let second = CalendarExpr { days: None, ..joint(s) };
        r.push(first);
        r.push(second);
    } else {
        r.push(joint(s));
    }
    r
}

/// The expressions of a translation fire at exactly the moments at which
/// cron runs the schedule: a split into two expressions unites their
/// moments, it does not intersect them.
pub proof fn lemma_translation_fires_as_cron(s: CronSpec, t: Moment)
    requires
        moment_valid(t),
    ensures
        any_fires(translation(s), t) <==> cron_fires(s, t),
{
    let e = joint_expr(s);
    lemma_expansion(s.minutes, 0, 59, false, t.minute as int);
    lemma_expansion(s.hours, 0, 23, false, t.hour as int);
    lemma_expansion(s.days, 1, 31, false, t.day as int);
    lemma_expansion(s.months, 1, 12, false, t.month as int);
    lemma_expansion(s.weekdays, 0, 6, true, t.weekday as int);
    let es = translation(s);
    if days_split(s) {
        if cron_fires(s, t) {
            if field_hits(s.days, 1, t.day as int, false) {
                assert(expr_fires(es[0], t));
            } else {
                assert(expr_fires(es[1], t));
            }
        }
    } else {
        if is_star(s.days) {
            assert(field_matches(s.days, 1, t.day as int)) by {
                assert(crate::field::item_matches(s.days[0], 1, t.day as int));
            }
        }
        if is_star(s.weekdays) {
            assert(field_matches(s.weekdays, 0, t.weekday as int)) by {
                assert(crate::field::item_matches(s.weekdays[0], 0, t.weekday as int));
            }
        }
        if cron_fires(s, t) {
            assert(expr_fires(es[0], t));
        }
    }
}

/// A schedule with neither day field restricted translates to one expression,
/// which fires exactly on the moments whose every value its fields select.
pub proof fn lemma_unrestricted_days_single(s: CronSpec, t: Moment)
    requires
        is_star(s.days),
        is_star(s.weekdays),
        moment_valid(t),
    ensures
        translation(s).len() == 1,
        expr_fires(translation(s)[0], t) <==> (
            field_matches(s.minutes, 0, t.minute as int)
            && field_matches(s.hours, 0, t.hour as int)
            && field_matches(s.months, 1, t.month as int)
        ),
{
    lemma_translation_fires_as_cron(s, t);
    assert(crate::field::item_matches(s.days[0], 1, t.day as int));
    assert(crate::field::item_matches(s.weekdays[0], 0, t.weekday as int));
    let es = translation(s);
    if expr_fires(es[0], t) {
        assert(any_fires(es, t));
    }
}

/// A schedule whose both day fields are restricted translates to exactly two
/// expressions, and neither alone covers what cron runs: one holds the
/// day-of-month and no weekday, the other the weekday and no day-of-month.
pub proof fn lemma_restricted_days_split(s: CronSpec)
    requires
        days_split(s),
    ensures
        translation(s).len() == 2,
        translation(s)[0].weekdays is None,
        translation(s)[0].days == expansion(s.days, 1, 31, false),
        translation(s)[1].days is None,
        translation(s)[1].weekdays == expansion(s.weekdays, 0, 6, true),
{
}

/// Writing Sunday as 7 in place of 0 in a day-of-week field changes nothing
/// in the translation.
pub proof fn lemma_sunday_seven_is_zero(s: CronSpec, u: CronSpec)
    requires
        s.minutes == u.minutes,
        s.hours == u.hours,
        s.days == u.days,
        s.months == u.months,
        s.weekdays.len() == u.weekdays.len(),
        forall|i: int|
            0 <= i < s.weekdays.len() ==> #[trigger] s.weekdays[i] == u.weekdays[i] || (
            s.weekdays[i] == FieldItem::Value(0) && u.weekdays[i] == FieldItem::Value(7)),
    ensures
        translation(s) == translation(u),
{
    let f = s.weekdays;
    let g = u.weekdays;
    assert(is_star(f) == is_star(g));
    assert forall|v: int| 0 <= v < 7 implies field_hits(f, 0, v, true) == field_hits(g, 0, v, true) by {
        if field_matches(f, 0, v) {
            let i = choose|i: int| 0 <= i < f.len() && crate::field::item_matches(#[trigger] f[i], 0, v);
            if f[i] != g[i] {
                assert(crate::field::item_matches(g[i], 0, 7));
            }
        }
        if field_matches(f, 0, 7) {
            let i = choose|i: int| 0 <= i < f.len() && crate::field::item_matches(#[trigger] f[i], 0, 7);
            assert(f[i] == g[i]);
        }
        if field_matches(g, 0, v) {
            let i = choose|i: int| 0 <= i < g.len() && crate::field::item_matches(#[trigger] g[i], 0, v);
            if f[i] != g[i] {
                assert(v == 7 || v == 0);
                assert(crate::field::item_matches(f[i], 0, 0));
            }
        }
        if field_matches(g, 0, 7) {
            let i = choose|i: int| 0 <= i < g.len() && crate::field::item_matches(#[trigger] g[i], 0, 7);
            assert(crate::field::item_matches(f[i], 0, 0) || crate::field::item_matches(f[i], 0, 7));
        }
    }
    lemma_values_below_ext(f, g, 0, 7, true);
    assert(joint_expr(s) == joint_expr(u));
}

} // verus!
