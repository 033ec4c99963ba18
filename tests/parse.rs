use cron_units::field::FieldItem;
use cron_units::parse::{parse_line, Entry, FieldName, ParseError};
use cron_units::unit::Schedule;

fn error_of(line: &str, system: bool) -> ParseError {
    match parse_line(line, 4, system) {
        Some(Err(e)) => {
            assert_eq!(e.line, 4);
            assert_eq!(e.text, line);
            e.error
        }
        _ => panic!("expected an error for {}", line),
    }
}

#[test]
fn blank_and_comment_lines_are_skipped() {
    assert!(parse_line("", 1, false).is_none());
    assert!(parse_line("   \t ", 1, false).is_none());
    assert!(parse_line("# 0 * * * * cmd", 1, false).is_none());
    assert!(parse_line("   # indented comment", 1, false).is_none());
}

#[test]
fn environment_assignment() {
    match parse_line("MAILTO=root", 1, false) {
        Some(Ok(Entry::Env(v))) => {
            assert_eq!(v.name, "MAILTO");
            assert_eq!(v.value, "root");
        }
        _ => panic!("expected an assignment"),
    }
    match parse_line("PATH = /bin:/usr/bin", 1, false) {
        Some(Ok(Entry::Env(v))) => {
            assert_eq!(v.name, "PATH");
            assert_eq!(v.value, "/bin:/usr/bin");
        }
        _ => panic!("expected an assignment"),
    }
}

#[test]
fn job_line_fields_and_verbatim_command() {
    match parse_line("  5,10-20/5 */2 1 jan-x * echo  a   b", 9, false) {
        Some(Err(e)) => assert!(matches!(e.error, ParseError::BadField(FieldName::Months, ref t) if t == "jan-x")),
        _ => panic!("month names are not numbers"),
    }
    match parse_line("5,10-20/5 */2 1 6 * echo  a   b ", 9, false) {
        Some(Ok(Entry::Job(j))) => {
            assert_eq!(j.line, 9);
            assert_eq!(j.command, "echo  a   b ");
            assert!(j.user.is_none());
            match j.schedule {
                Schedule::Calendar(c) => {
                    assert_eq!(c.minutes, vec![FieldItem::Value(5), FieldItem::Range(10, 20, 5)]);
                    assert_eq!(c.hours, vec![FieldItem::Full(2)]);
                    assert_eq!(c.days, vec![FieldItem::Value(1)]);
                    assert_eq!(c.months, vec![FieldItem::Value(6)]);
                    assert_eq!(c.weekdays, vec![FieldItem::Full(1)]);
                }
                Schedule::Keyword(_) => panic!("calendar expected"),
            }
        }
        _ => panic!("expected a job"),
    }
}

#[test]
fn system_crontab_names_user() {
    match parse_line("17 * * * * root cd / && run-parts /etc/cron.hourly", 2, true) {
        Some(Ok(Entry::Job(j))) => {
            assert_eq!(j.user.as_deref(), Some("root"));
            assert_eq!(j.command, "cd / && run-parts /etc/cron.hourly");
        }
        _ => panic!("expected a job"),
    }
    assert!(matches!(error_of("@daily", true), ParseError::MissingUser));
}

#[test]
fn field_errors_name_field_and_token() {
    assert!(matches!(error_of("61 * * * * cmd", false), ParseError::BadField(FieldName::Minutes, t) if t == "61"));
    assert!(matches!(error_of("0 24 * * * cmd", false), ParseError::BadField(FieldName::Hours, t) if t == "24"));
    assert!(matches!(error_of("0 0 0 * * cmd", false), ParseError::BadField(FieldName::Days, t) if t == "0"));
    assert!(matches!(error_of("0 0 * 13 * cmd", false), ParseError::BadField(FieldName::Months, t) if t == "13"));
    assert!(matches!(error_of("0 0 * * 8 cmd", false), ParseError::BadField(FieldName::Weekdays, t) if t == "8"));
    assert!(matches!(error_of("*/0 * * * * cmd", false), ParseError::BadField(FieldName::Minutes, t) if t == "*/0"));
    assert!(matches!(error_of("5/2 * * * * cmd", false), ParseError::BadField(FieldName::Minutes, t) if t == "5/2"));
    assert!(matches!(error_of("9-3 * * * * cmd", false), ParseError::BadField(FieldName::Minutes, t) if t == "9-3"));
    assert!(matches!(error_of("1,,2 * * * * cmd", false), ParseError::BadField(FieldName::Minutes, t) if t == "1,,2"));
    assert!(matches!(error_of("300 * * * * cmd", false), ParseError::BadField(FieldName::Minutes, t) if t == "300"));
}

#[test]
fn missing_fields_and_unknown_keywords() {
    assert!(matches!(error_of("* * * *", false), ParseError::MissingField(FieldName::Weekdays)));
    assert!(matches!(error_of("*", false), ParseError::MissingField(FieldName::Hours)));
    assert!(matches!(error_of("@fortnightly cmd", false), ParseError::UnknownKeyword(t) if t == "@fortnightly"));
}

#[test]
fn assignment_values_unquoted() {
    let value = |line: &str| match parse_line(line, 1, false) {
        Some(Ok(Entry::Env(v))) => v.value,
        _ => panic!("expected an assignment for {}", line),
    };
    assert_eq!(value("A='x y'"), "x y");
    assert_eq!(value("B=\"q\""), "q");
    assert_eq!(value("C=\"q"), "\"q");
    assert_eq!(value("D="), "");
    assert_eq!(value("MAILTO=user@h\u{f4}st"), "user@h\u{f4}st");
}

#[test]
fn assignment_values_outside_ascii_are_reported() {
    assert!(matches!(error_of("MAILTO=\u{fc}@host", false), ParseError::NonAsciiValue));
    assert!(matches!(error_of("X='\u{e9}", false), ParseError::NonAsciiValue));
    match parse_line("* * * * * echo x=\u{e9}", 1, false) {
        Some(Ok(Entry::Job(j))) => assert_eq!(j.command, "echo x=\u{e9}"),
        _ => panic!("expected a job"),
    }
}

#[test]
fn month_and_weekday_names() {
    match parse_line("0 0 * jan,Jul MON-fri cmd", 1, false) {
        Some(Ok(Entry::Job(j))) => match j.schedule {
            Schedule::Calendar(c) => {
                assert_eq!(c.months, vec![FieldItem::Value(1), FieldItem::Value(7)]);
                assert_eq!(c.weekdays, vec![FieldItem::Range(1, 5, 1)]);
            }
            Schedule::Keyword(_) => panic!("calendar expected"),
        },
        _ => panic!("expected a job"),
    }
    assert!(matches!(error_of("0 0 * * jan cmd", false), ParseError::BadField(FieldName::Weekdays, t) if t == "jan"));
    assert!(matches!(error_of("0 0 * sun * cmd", false), ParseError::BadField(FieldName::Months, t) if t == "sun"));
}
