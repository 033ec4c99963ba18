use cron_units::compile::{compile_crontab, include_entry, Diagnostic, FileOutput};
use cron_units::parse::{FieldName, ParseError};
use cron_units::unit::{
    service_body, synthesize, unit_base_name, EnvVar, JobEntry, Period, Schedule, SynthesisError,
    UnitOptions,
};

fn opts() -> UnitOptions {
    UnitOptions { persistent: false, runner: "/usr/lib/cron/run".to_string() }
}

fn compile(source: &str, lines: &[&str]) -> FileOutput {
    let lines: Vec<String> = lines.iter().map(|l| l.to_string()).collect();
    compile_crontab(source, &lines, false, &opts())
}

#[test]
fn base_names_escape_the_source() {
    assert_eq!(unit_base_name("a.b", 12), "cron-12-a-46.b");
    assert_eq!(unit_base_name("root", 1), "cron-1-root");
    assert_eq!(unit_base_name("/etc/x", 3), "cron-3--47.etc-47.x");
}

#[test]
fn service_body_lists_environment_user_and_runner() {
    let env = vec![
        EnvVar { name: "FOO".to_string(), value: "1".to_string() },
        EnvVar { name: "Q".to_string(), value: "a\"b\\c".to_string() },
    ];
    let s = service_body("echo hi", &Some("root".to_string()), &env, "/usr/lib/cron/run");
    assert_eq!(
        s,
        "[Unit]\nDescription=Cron job: echo hi\n\n[Service]\nType=oneshot\nEnvironment=\"FOO=1\"\nEnvironment=\"Q=a\\\"b\\\\c\"\nUser=root\nExecStart=/usr/lib/cron/run echo hi\n"
    );
}

#[test]
fn blank_command_is_a_synthesis_error() {
    let job = JobEntry {
        schedule: Schedule::Keyword(Period::Daily),
        user: None,
        command: " \t ".to_string(),
        line: 1,
    };
    assert!(matches!(synthesize(&job, &vec![], "f", &opts()), Err(SynthesisError::EmptyCommand)));
    let job = JobEntry { command: "true".to_string(), ..job };
    let u = synthesize(&job, &vec![], "f", &opts()).unwrap();
    assert_eq!(u.base_name, "cron-1-f");
    assert!(u.timer.contains("Unit=cron-1-f.service\n"));
}

#[test]
fn malformed_line_is_isolated() {
    let out = compile("tab", &["oops not a job", "0 * * * * echo hi", "# trailing comment"]);
    assert_eq!(out.units.len(), 1);
    assert_eq!(out.units[0].base_name, "cron-2-tab");
    assert_eq!(out.diagnostics.len(), 1);
    match &out.diagnostics[0] {
        Diagnostic::Parse(e) => {
            assert_eq!(e.line, 1);
            assert_eq!(e.text, "oops not a job");
            assert!(matches!(&e.error, ParseError::BadField(FieldName::Minutes, t) if t == "oops"));
        }
        Diagnostic::Synthesis(..) => panic!("parse error expected"),
    }
}

#[test]
fn environment_is_scoped_by_position() {
    let out = compile("tab", &["FOO=1", "* * * * * a", "FOO=2", "* * * * * b"]);
    assert_eq!(out.units.len(), 2);
    assert!(out.units[0].service.contains("Environment=\"FOO=1\"\n"));
    assert!(!out.units[0].service.contains("FOO=2"));
    assert!(out.units[1].service.contains("Environment=\"FOO=2\"\n"));
    assert!(!out.units[1].service.contains("FOO=1"));
}

#[test]
fn later_assignment_overwrites_in_place() {
    let out = compile("tab", &["A=1", "B=2", "A=3", "* * * * * x"]);
    assert!(out.units[0].service.contains("Environment=\"A=3\"\nEnvironment=\"B=2\"\n"));
}

#[test]
fn compiling_is_repeatable_and_names_do_not_collide() {
    let lines = ["MAILTO=x", "*/5 * * * * same", "@daily same"];
    let a = compile("one", &lines);
    let b = compile("one", &lines);
    assert_eq!(a.units.len(), 2);
    for (x, y) in a.units.iter().zip(b.units.iter()) {
        assert_eq!(x.base_name, y.base_name);
        assert_eq!(x.timer, y.timer);
        assert_eq!(x.service, y.service);
    }
    assert_ne!(a.units[0].base_name, a.units[1].base_name);
    let c = compile("two", &lines);
    assert_ne!(a.units[0].base_name, c.units[0].base_name);
    assert_eq!(a.units[0].service, c.units[0].service);
}

#[test]
fn blank_command_in_file_is_reported() {
    let out = compile("tab", &["@hourly   ", "@hourly ok"]);
    assert_eq!(out.units.len(), 1);
    assert!(matches!(out.diagnostics[0], Diagnostic::Synthesis(1, SynthesisError::EmptyCommand)));
}

#[test]
fn directory_entries_filtered() {
    assert!(include_entry("root", Some(true)));
    assert!(!include_entry(".placeholder", Some(true)));
    assert!(!include_entry("subdir", Some(false)));
    assert!(include_entry("unknown", None));
}

#[test]
fn unicode_white_space_is_blank() {
    let out = compile("tab", &["@hourly \u{a0}\u{b}\u{3000}", "@hourly ok"]);
    assert_eq!(out.units.len(), 1);
    assert!(matches!(out.diagnostics[0], Diagnostic::Synthesis(1, SynthesisError::EmptyCommand)));
}

#[test]
fn malformed_line_replaced_by_comment_keeps_units() {
    let a = compile("tab", &["X=1", "bad line", "*/5 * * * * job"]);
    let b = compile("tab", &["X=1", "# bad line", "*/5 * * * * job"]);
    assert_eq!(a.units.len(), 1);
    assert_eq!(a.units[0].base_name, "cron-3-tab");
    assert_eq!(a.units[0].base_name, b.units[0].base_name);
    assert_eq!(a.units[0].timer, b.units[0].timer);
    assert_eq!(a.units[0].service, b.units[0].service);
}
