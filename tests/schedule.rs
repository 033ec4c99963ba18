use cron_units::field::{expand, selects, FieldItem};
use cron_units::parse::{parse_line, Entry};
use cron_units::schedule::{translate, CronSchedule};
use cron_units::unit::{keyword_expr, timer_body, Period, Schedule};

fn schedule_of(line: &str) -> Schedule {
    match parse_line(line, 1, false) {
        Some(Ok(Entry::Job(j))) => j.schedule,
        _ => panic!("not a job line: {}", line),
    }
}

fn calendar_of(line: &str) -> CronSchedule {
    match schedule_of(line) {
        Schedule::Calendar(c) => c,
        Schedule::Keyword(_) => panic!("keyword schedule"),
    }
}

#[test]
fn unrestricted_days_give_one_expression() {
    let c = calendar_of("*/15 9-17 * * * backup");
    let es = translate(&c);
    assert_eq!(es.len(), 1);
    assert_eq!(es[0].minutes, Some(vec![0, 15, 30, 45]));
    assert_eq!(es[0].hours, Some(vec![9, 10, 11, 12, 13, 14, 15, 16, 17]));
    assert_eq!(es[0].days, None);
    assert_eq!(es[0].months, None);
    assert_eq!(es[0].weekdays, None);
    let t = timer_body(&Schedule::Calendar(c), "b", false);
    assert_eq!(
        t,
        "[Unit]\nDescription=Timer for b\n\n[Timer]\nOnCalendar=*-*-* 9,10,11,12,13,14,15,16,17:0,15,30,45:00\nUnit=b.service\n"
    );
}

#[test]
fn both_day_fields_restricted_split_in_two() {
    let c = calendar_of("0 0 1 * 1 cmd");
    let es = translate(&c);
    assert_eq!(es.len(), 2);
    assert_eq!(es[0].days, Some(vec![1]));
    assert_eq!(es[0].weekdays, None);
    assert_eq!(es[1].days, None);
    assert_eq!(es[1].weekdays, Some(vec![1]));
    let t = timer_body(&Schedule::Calendar(c), "b", false);
    assert_eq!(
        t,
        "[Unit]\nDescription=Timer for b\n\n[Timer]\nOnCalendar=*-*-1 0:0:00\nOnCalendar=Mon *-*-* 0:0:00\nUnit=b.service\n"
    );
}

#[test]
fn one_restricted_day_field_stays_joint() {
    let es = translate(&calendar_of("30 6 * 1,7 1-5 cmd"));
    assert_eq!(es.len(), 1);
    assert_eq!(es[0].months, Some(vec![1, 7]));
    assert_eq!(es[0].weekdays, Some(vec![1, 2, 3, 4, 5]));
}

#[test]
fn sunday_as_seven_equals_zero() {
    let a = timer_body(&schedule_of("0 0 * * 0 cmd"), "b", true);
    let b = timer_body(&schedule_of("0 0 * * 7 cmd"), "b", true);
    assert_eq!(a, b);
    assert!(a.contains("OnCalendar=Sun *-*-* 0:0:00\n"));
    assert!(a.ends_with("Persistent=true\n"));
    let es = translate(&calendar_of("0 0 * * 5-7 cmd"));
    assert_eq!(es[0].weekdays, Some(vec![0, 5, 6]));
}

#[test]
fn keywords_map_to_fixed_expressions() {
    let t = timer_body(&schedule_of("@weekly cmd"), "w", false);
    assert!(t.contains("OnCalendar=Sun *-*-* 0:0:00\n"));
    let t = timer_body(&schedule_of("@quarterly cmd"), "q", false);
    assert!(t.contains("OnCalendar=*-1,4,7,10-1 0:0:00\n"));
    let t = timer_body(&schedule_of("@reboot cmd"), "r", false);
    assert!(t.contains("OnBootSec=1min\n"));
    assert!(!t.contains("OnCalendar"));
    assert!(keyword_expr(Period::Reboot).is_none());
    let h = keyword_expr(Period::Hourly).unwrap();
    assert_eq!(h.minutes, Some(vec![0]));
    assert_eq!(h.hours, None);
    assert!(matches!(schedule_of("@midnight x"), Schedule::Keyword(Period::Daily)));
    assert!(matches!(schedule_of("@annually x"), Schedule::Keyword(Period::Yearly)));
}

#[test]
fn field_items_select_values() {
    let f = vec![FieldItem::Range(10, 20, 5), FieldItem::Value(3)];
    assert!(selects(&f, 0, 15));
    assert!(selects(&f, 0, 3));
    assert!(!selects(&f, 0, 12));
    assert_eq!(expand(&f, 0, 59, false), Some(vec![3, 10, 15, 20]));
    assert_eq!(expand(&vec![FieldItem::Full(1)], 0, 59, false), None);
    assert_eq!(expand(&vec![FieldItem::Full(20)], 0, 59, false), Some(vec![0, 20, 40]));
    assert_eq!(expand(&vec![FieldItem::Value(7)], 0, 6, true), Some(vec![0]));
}
