use vstd::prelude::*;

use crate::schedule::{slot_view, translate, translation, CalendarExpr, CalendarSpec, CronSchedule, CronSpec};
use crate::text::{
    calendar_text, chars_of, dec, lemma_dec_digits, lemma_dec_injective, push_calendar, push_dec,
    push_str, string_of,
};

verus! {

/// The symbolic schedules written `@keyword` in a crontab.
#[derive(Clone, Copy, Debug, PartialEq, Eq, Structural)]
pub enum Period {
    Reboot,
    Minutely,
    Hourly,
    Daily,
    Weekly,
    Monthly,
    Quarterly,
    SemiAnnually,
    Yearly,
}

/// When a job runs: five cron fields, or a keyword.
#[derive(Clone, Debug)]
pub enum Schedule {
    Calendar(CronSchedule),
    Keyword(Period),
}

/// A schedule as a value.
pub enum ScheduleSpec {
    Calendar(CronSpec),
    Keyword(Period),
}

impl View for Schedule {
    type V = ScheduleSpec;

    open spec fn view(&self) -> ScheduleSpec {
        match self {
            Schedule::Calendar(c) => ScheduleSpec::Calendar(c@),
            Schedule::Keyword(p) => ScheduleSpec::Keyword(*p),
        }
    }
}

/// One `NAME=VALUE` assignment of a crontab.
#[derive(Clone, Debug)]
pub struct EnvVar {
    pub name: String,
    pub value: String,
}

/// A scheduled job of a crontab, with the 1-based line it stands on.
#[derive(Clone, Debug)]
pub struct JobEntry {
    pub schedule: Schedule,
    /// The user to run as; crontabs of a single user have none.
    pub user: Option<String>,
    pub command: String,
    pub line: usize,
}

/// Settings that hold for every unit written.
#[derive(Clone, Debug)]
pub struct UnitOptions {
    /// Missed runs fire once on the next occasion.
    pub persistent: bool,
    /// The program that runs one job's command.
    pub runner: String,
}

/// The timer and service bodies of one job, under its base name.
#[derive(Clone, Debug)]
pub struct CompiledUnit {
    pub base_name: String,
    pub timer: String,
    pub service: String,
}

#[derive(Clone, Copy, Debug, PartialEq, Eq, Structural)]
pub enum SynthesisError {
    /// The command holds nothing but white space.
    EmptyCommand,
}

/// The calendar expression that a keyword stands for; `None` for a start at boot.
pub open spec fn period_expr(p: Period) -> Option<CalendarSpec> {
    let at = |minutes: Option<Seq<u8>>, hours: Option<Seq<u8>>, days: Option<Seq<u8>>,
        months: Option<Seq<u8>>, weekdays: Option<Seq<u8>>|
        CalendarSpec { minutes, hours, days, months, weekdays };
    let z = Some(seq![0u8]);
    let one = Some(seq![1u8]);
    match p {
        Period::Reboot => None,
        Period::Minutely => Some(at(None, None, None, None, None)),
        Period::Hourly => Some(at(z, None, None, None, None)),
        Period::Daily => Some(at(z, z, None, None, None)),
        Period::Weekly => Some(at(z, z, None, None, z)),
        Period::Monthly => Some(at(z, z, one, None, None)),
        Period::Quarterly => Some(at(z, z, one, Some(seq![1u8, 4, 7, 10]), None)),
        Period::SemiAnnually => Some(at(z, z, one, Some(seq![1u8, 7]), None)),
        Period::Yearly => Some(at(z, z, one, one, None)),
    }
}

pub open spec fn calendar_line(e: CalendarSpec) -> Seq<char> {
    "OnCalendar="@ + calendar_text(e) + seq!['\n']
}

/// One trigger line for each expression.
pub open spec fn calendar_lines(es: Seq<CalendarSpec>) -> Seq<char>
    decreases es.len(),
{
    if es.len() == 0 {
        Seq::empty()
    } else {
        calendar_lines(es.drop_last()) + calendar_line(es.last())
    }
}

/// The trigger lines of a timer.
pub open spec fn trigger_lines(s: ScheduleSpec) -> Seq<char> {
    match s {
        ScheduleSpec::Calendar(c) => calendar_lines(translation(c)),
        ScheduleSpec::Keyword(p) => match period_expr(p) {
            None => "OnBootSec=1min\n"@,
            Some(e) => calendar_line(e),
        },
    }
}

/// The body of a job's timer.
pub open spec fn timer_text(s: ScheduleSpec, base: Seq<char>, persistent: bool) -> Seq<char> {
    "[Unit]\nDescription=Timer for "@ + base + "\n\n[Timer]\n"@ + trigger_lines(s) + "Unit="@ + base
        + ".service\n"@ + if persistent {
        "Persistent=true\n"@
    } else {
        Seq::empty()
    }
}

/// A value with `"` and `\` escaped by a backslash.
pub open spec fn quoted(s: Seq<char>) -> Seq<char>
    decreases s.len(),
{
    if s.len() == 0 {
        Seq::empty()
    } else {
        let c = s.last();
        quoted(s.drop_last()) + if c == '"' || c == '\\' {
            seq!['\\', c]
        } else {
            seq![c]
        }
    }
}

/// The variables as name and value.
pub open spec fn env_pairs(env: Seq<EnvVar>) -> Seq<(Seq<char>, Seq<char>)> {
    env.map_values(|v: EnvVar| (v.name@, v.value@))
}

/// One `Environment=` line per variable, in order.
pub open spec fn env_lines(env: Seq<(Seq<char>, Seq<char>)>) -> Seq<char>
    decreases env.len(),
{
    if env.len() == 0 {
        Seq::empty()
    } else {
        let v = env.last();
        env_lines(env.drop_last()) + "Environment=\""@ + quoted(v.0) + seq!['='] + quoted(v.1)
            + "\"\n"@
    }
}

pub open spec fn user_line(user: Option<Seq<char>>) -> Seq<char> {
    match user {
        None => Seq::empty(),
        Some(u) => "User="@ + u + seq!['\n'],
    }
}

/// The body of a job's service.
pub open spec fn service_text(cmd: Seq<char>, user: Option<Seq<char>>, env: Seq<(Seq<char>, Seq<char>)>, runner: Seq<char>) -> Seq<char> {
    "[Unit]\nDescription=Cron job: "@ + cmd + "\n\n[Service]\nType=oneshot\n"@ + env_lines(env) + user_line(user)
        + "ExecStart="@ + runner + seq![' '] + cmd + seq!['\n']
}

pub open spec fn user_view(u: Option<String>) -> Option<Seq<char>> {
    match u {
        None => None,
        Some(s) => Some(s@),
    }
}

/// Characters that stand for themselves in a base name.
pub open spec fn name_safe(c: char) -> bool {
    ('a' <= c && c <= 'z') || ('A' <= c && c <= 'Z') || ('0' <= c && c <= '9') || c == '_'
}

/// A character in a base name: itself, or `-`, its code in decimal, and `.`.
pub open spec fn escape_char(c: char) -> Seq<char> {
    if name_safe(c) {
        seq![c]
    } else {
        seq!['-'] + dec((c as u32) as nat) + seq!['.']
    }
}

pub open spec fn escaped(s: Seq<char>) -> Seq<char>
    decreases s.len(),
{
    if s.len() == 0 {
        Seq::empty()
    } else {
        escaped(s.drop_last()) + escape_char(s.last())
    }
}

/// The base name of the units of the job on `line` of the file `source`.
pub open spec fn base_name(source: Seq<char>, line: nat) -> Seq<char> {
    "cron-"@ + dec(line) + seq!['-'] + escaped(source)
}

/// White space as `char::is_whitespace` has it: the Unicode `White_Space` property.
pub open spec fn is_space(c: char) -> bool {
    let u = c as u32;
    (0x09 <= u <= 0x0d) || u == 0x20 || u == 0x85 || u == 0xa0 || u == 0x1680 || (0x2000 <= u
        <= 0x200a) || u == 0x2028 || u == 0x2029 || u == 0x202f || u == 0x205f || u == 0x3000
}

/// Nothing but white space.
pub open spec fn is_blank(s: Seq<char>) -> bool {
    forall|i: int| 0 <= i < s.len() ==> is_space(#[trigger] s[i])
}

/// The calendar expression of a keyword.
pub fn keyword_expr(p: Period) -> (r: Option<CalendarExpr>)
    ensures
        match r {
            None => period_expr(p) is None,
            Some(e) => period_expr(p) == Some(e@),
        },
{
    let at = |minutes: Option<Vec<u8>>, hours: Option<Vec<u8>>, days: Option<Vec<u8>>,
        months: Option<Vec<u8>>, weekdays: Option<Vec<u8>>| -> (e: CalendarExpr)
        ensures
            e == (CalendarExpr { minutes, hours, days, months, weekdays }),
        { CalendarExpr { minutes, hours, days, months, weekdays } };
    let r = match p {
        Period::Reboot => None,
        Period::Minutely => Some(at(None, None, None, None, None)),
        Period::Hourly => Some(at(Some(vec![0]), None, None, None, None)),
        Period::Daily => Some(at(Some(vec![0]), Some(vec![0]), None, None, None)),
        Period::Weekly => Some(at(Some(vec![0]), Some(vec![0]), None, None, Some(vec![0]))),
        Period::Monthly => Some(at(Some(vec![0]), Some(vec![0]), Some(vec![1]), None, None)),
        Period::Quarterly => Some(at(Some(vec![0]), Some(vec![0]), Some(vec![1]), Some(vec![1, 4, 7, 10]), None)),
        Period::SemiAnnually => Some(at(Some(vec![0]), Some(vec![0]), Some(vec![1]), Some(vec![1, 7]), None)),
        Period::Yearly => Some(at(Some(vec![0]), Some(vec![0]), Some(vec![1]), Some(vec![1]), None)),
    };
    proof {
        if let Some(e) = &r {
            assert(slot_view(e.minutes) =~~= period_expr(p)->0.minutes);
            assert(slot_view(e.hours) =~~= period_expr(p)->0.hours);
            assert(slot_view(e.days) =~~= period_expr(p)->0.days);
            assert(slot_view(e.months) =~~= period_expr(p)->0.months);
            assert(slot_view(e.weekdays) =~~= period_expr(p)->0.weekdays);
        }
    }
    r
}


fn push_calendar_line(out: &mut Vec<char>, e: &CalendarExpr)
    ensures
        final(out)@ == old(out)@ + calendar_line(e@),
{
    push_str(out, "OnCalendar=");
    push_calendar(out, e);
    out.push('\n');
}

fn push_triggers(out: &mut Vec<char>, s: &Schedule)
    ensures
        final(out)@ == old(out)@ + trigger_lines(s@),
{
    match s {
        Schedule::Calendar(c) => {
            let es = translate(c);
            let ghost start = out@;
            let mut i: usize = 0;
            while i < es.len()
                invariant
                    i <= es.len(),
                    es@.len() == translation(c@).len(),
                    forall|k: int| 0 <= k < es@.len() ==> #[trigger] es@[k]@ == translation(c@)[k],
                    out@ == start + calendar_lines(translation(c@).take(i as int)),
                decreases es.len() - i,
            {
                push_calendar_line(out, &es[i]);
                assert(translation(c@).take(i + 1).drop_last() == translation(c@).take(i as int));
                i = i + 1;
            }
            assert(translation(c@).take(es.len() as int) == translation(c@));
        },
        Schedule::Keyword(p) => match keyword_expr(*p) {
            None => push_str(out, "OnBootSec=1min\n"),
            Some(e) => push_calendar_line(out, &e),
        },
    }
}

fn push_quoted(out: &mut Vec<char>, s: &str)
    ensures
        final(out)@ == old(out)@ + quoted(s@),
{
    let cs = chars_of(s);
    let mut i: usize = 0;
    while i < cs.len()
        invariant
            i <= cs.len(),
            cs@ == s@,
            out@ == old(out)@ + quoted(s@.take(i as int)),
        decreases cs.len() - i,
    {
        let c = cs[i];
        if c == '"' || c == '\\' {
            out.push('\\');
        }
        out.push(c);
        assert(s@.take(i + 1).drop_last() == s@.take(i as int));
        i = i + 1;
    }
    assert(s@.take(cs.len() as int) == s@);
}

fn push_env_lines(out: &mut Vec<char>, env: &Vec<EnvVar>)
    ensures
        final(out)@ == old(out)@ + env_lines(env_pairs(env@)),
{
    let mut i: usize = 0;
    while i < env.len()
        invariant
            i <= env.len(),
            out@ == old(out)@ + env_lines(env_pairs(env@.take(i as int))),
        decreases env.len() - i,
    {
        push_str(out, "Environment=\"");
        push_quoted(out, env[i].name.as_str());
        out.push('=');
        push_quoted(out, env[i].value.as_str());
        push_str(out, "\"\n");
        assert(env_pairs(env@.take(i + 1)).drop_last() == env_pairs(env@.take(i as int)));
        i = i + 1;
    }
    assert(env@.take(env.len() as int) == env@);
}

fn push_escaped(out: &mut Vec<char>, s: &str)
    ensures
        final(out)@ == old(out)@ + escaped(s@),
{
    let cs = chars_of(s);
    let mut i: usize = 0;
    while i < cs.len()
        invariant
            i <= cs.len(),
            cs@ == s@,
            out@ == old(out)@ + escaped(s@.take(i as int)),
        decreases cs.len() - i,
    {
        let c = cs[i];
        if ('a' <= c && c <= 'z') || ('A' <= c && c <= 'Z') || ('0' <= c && c <= '9') || c == '_' {
            out.push(c);
        } else {
            out.push('-');
            push_dec(out, c as u32 as u64);
            out.push('.');
        }
        assert(s@.take(i + 1).drop_last() == s@.take(i as int));
        i = i + 1;
    }
    assert(s@.take(cs.len() as int) == s@);
}

/// The base name of the units of the job on `line` of the file `source`.
pub fn unit_base_name(source: &str, line: usize) -> (r: String)
    ensures
        r@ == base_name(source@, line as nat),
{
    let mut out: Vec<char> = Vec::new();
    push_str(&mut out, "cron-");
    push_dec(&mut out, line as u64);
    out.push('-');
    push_escaped(&mut out, source);
    string_of(out.as_slice())
}

/// Whether the text holds nothing but white space.
pub fn blank(s: &str) -> (r: bool)
    ensures
        r == is_blank(s@),
{
    let cs = chars_of(s);
    let mut i: usize = 0;
    while i < cs.len()
        invariant
            i <= cs.len(),
            cs@ == s@,
            forall|k: int| 0 <= k < i ==> is_space(#[trigger] s@[k]),
        decreases cs.len() - i,
    {
        let u = cs[i] as u32;
        if !((0x09 <= u && u <= 0x0d) || u == 0x20 || u == 0x85 || u == 0xa0 || u == 0x1680 || (0x2000
            <= u && u <= 0x200a) || u == 0x2028 || u == 0x2029 || u == 0x202f || u == 0x205f || u
            == 0x3000) {
            return false;
        }
        i = i + 1;
    }
    true
}

/// The body of the timer of a job.
pub fn timer_body(s: &Schedule, base: &str, persistent: bool) -> (r: String)
    ensures
        r@ == timer_text(s@, base@, persistent),
{
    let mut out: Vec<char> = Vec::new();
    push_str(&mut out, "[Unit]\nDescription=Timer for ");
    push_str(&mut out, base);
    push_str(&mut out, "\n\n[Timer]\n");
    push_triggers(&mut out, s);
    push_str(&mut out, "Unit=");
    push_str(&mut out, base);
    push_str(&mut out, ".service\n");
    if persistent {
        push_str(&mut out, "Persistent=true\n");
    }
    string_of(out.as_slice())
}

/// The body of the service of a job.
pub fn service_body(cmd: &str, user: &Option<String>, env: &Vec<EnvVar>, runner: &str) -> (r: String)
    ensures
        r@ == service_text(cmd@, user_view(*user), env_pairs(env@), runner@),
{
    let mut out: Vec<char> = Vec::new();
    push_str(&mut out, "[Unit]\nDescription=Cron job: ");
    push_str(&mut out, cmd);
    push_str(&mut out, "\n\n[Service]\nType=oneshot\n");
    push_env_lines(&mut out, env);
    match user {
        None => {},
        Some(u) => {
            push_str(&mut out, "User=");
            push_str(&mut out, u.as_str());
            out.push('\n');
        },
    }
    push_str(&mut out, "ExecStart=");
    push_str(&mut out, runner);
    out.push(' ');
    push_str(&mut out, cmd);
    out.push('\n');
    string_of(out.as_slice())
}

/// The units of one job, seeing the environment `env`, from the file `source`.
/// A command of white space alone has nothing to run.
pub fn synthesize(entry: &JobEntry, env: &Vec<EnvVar>, source: &str, opts: &UnitOptions) -> (r: Result<
    CompiledUnit,
    SynthesisError,
>)
    ensures
        is_blank(entry.command@) <==> r is Err,
        r matches Ok(u) ==> {
            &&& u.base_name@ == base_name(source@, entry.line as nat)
            &&& u.timer@ == timer_text(entry.schedule@, u.base_name@, opts.persistent)
            &&& u.service@ == service_text(entry.command@, user_view(entry.user), env_pairs(env@), opts.runner@)
        },
{
    if blank(entry.command.as_str()) {
        return Err(SynthesisError::EmptyCommand);
    }
    let base = unit_base_name(source, entry.line);
    let timer = timer_body(&entry.schedule, base.as_str(), opts.persistent);
    let service = service_body(entry.command.as_str(), &entry.user, env, opts.runner.as_str());
    Ok(CompiledUnit { base_name: base, timer, service })
}


proof fn lemma_escape_char_shape(c: char)
    ensures
        escape_char(c).len() >= 1,
        name_safe(c) ==> escape_char(c) == seq![c],
        !name_safe(c) ==> {
            &&& escape_char(c).len() >= 3
            &&& escape_char(c)[0] == '-'
            &&& escape_char(c).last() == '.'
            &&& forall|i: int| 1 <= i < escape_char(c).len() - 1 ==> '0' <= #[trigger] escape_char(c)[i] <= '9'
        },
{
    lemma_dec_digits((c as u32) as nat);
    if !name_safe(c) {
        let d = dec((c as u32) as nat);
        assert forall|i: int| 1 <= i < escape_char(c).len() - 1 implies '0' <= #[trigger] escape_char(c)[i] <= '9' by {
            assert(escape_char(c)[i] == d[i - 1]);
        }
    }
}

proof fn lemma_escape_char_injective(a: char, b: char)
    requires
        escape_char(a) == escape_char(b),
    ensures
        a == b,
{
    lemma_escape_char_shape(a);
    lemma_escape_char_shape(b);
    if name_safe(a) && name_safe(b) {
        assert(escape_char(a)[0] == a);
    } else if !name_safe(a) && !name_safe(b) {
        let da = dec((a as u32) as nat);
        let db = dec((b as u32) as nat);
        assert(da == escape_char(a).subrange(1, escape_char(a).len() - 1));
        assert(db == escape_char(b).subrange(1, escape_char(b).len() - 1));
        lemma_dec_injective((a as u32) as nat, (b as u32) as nat);
    } else if name_safe(a) {
        assert(escape_char(a).len() == 1);
    } else {
        assert(escape_char(b).len() == 1);
    }
}

/// Distinct texts escape to distinct names.
pub proof fn lemma_escaped_injective(s: Seq<char>, t: Seq<char>)
    requires
        escaped(s) == escaped(t),
    ensures
        s == t,
    decreases s.len() + t.len(),
{
    if s.len() == 0 && t.len() == 0 {
    } else if s.len() == 0 {
        lemma_escape_char_shape(t.last());
        assert(escaped(t).len() >= 1);
    } else if t.len() == 0 {
        lemma_escape_char_shape(s.last());
        assert(escaped(s).len() >= 1);
    } else {
        let (a, b) = (s.last(), t.last());
        let (ea, eb) = (escape_char(a), escape_char(b));
        let (ps, pt) = (escaped(s.drop_last()), escaped(t.drop_last()));
        let w = escaped(s);
        assert(w == ps + ea);
        assert(w == pt + eb);
        lemma_escape_char_shape(a);
        lemma_escape_char_shape(b);
        let n = w.len() as int;
        assert(w[n - 1] == ea.last());
        assert(w[n - 1] == eb.last());
        if ea.len() < eb.len() {
            // The code of `a` starts inside that of `b`, where only digits stand.
            let k = n - ea.len();
            assert(w[k] == ea[0]);
            assert(w[k] == eb[k - pt.len()]);
            assert(false);
        } else if eb.len() < ea.len() {
            let k = n - eb.len();
            assert(w[k] == eb[0]);
            assert(w[k] == ea[k - ps.len()]);
            assert(false);
        }
        assert(ea == w.subrange(n - ea.len(), n));
        assert(eb == w.subrange(n - eb.len(), n));
        assert(ps == w.subrange(0, n - ea.len()));
        assert(pt == w.subrange(0, n - eb.len()));
        lemma_escape_char_injective(a, b);
        lemma_escaped_injective(s.drop_last(), t.drop_last());
        assert(s == s.drop_last().push(a));
        assert(t == t.drop_last().push(b));
    }
}

/// Two jobs get the same base name only where they stand on the same line
/// of the same file: names never collide, whatever the commands.
pub proof fn lemma_base_names_distinct(s1: Seq<char>, n1: nat, s2: Seq<char>, n2: nat)
    requires
        base_name(s1, n1) == base_name(s2, n2),
    ensures
        s1 == s2,
        n1 == n2,
{
    let (d1, d2) = (dec(n1), dec(n2));
    lemma_dec_digits(n1);
    lemma_dec_digits(n2);
    let w = base_name(s1, n1);
    let p = "cron-"@;
    assert(w == p + d1 + seq!['-'] + escaped(s1));
    assert(w == p + d2 + seq!['-'] + escaped(s2));
    let plen = p.len() as int;
    if d1.len() < d2.len() {
        assert(w[plen + d1.len()] == '-');
        assert(w[plen + d1.len()] == d2[d1.len() as int]);
        assert(false);
    } else if d2.len() < d1.len() {
        assert(w[plen + d2.len()] == '-');
        assert(w[plen + d2.len()] == d1[d2.len() as int]);
        assert(false);
    }
    assert(d1 == w.subrange(plen, plen + d1.len()));
    assert(d2 == w.subrange(plen, plen + d2.len()));
    lemma_dec_injective(n1, n2);
    let q = plen + d1.len() + 1;
    assert(escaped(s1) == w.subrange(q, w.len() as int));
    assert(escaped(s2) == w.subrange(q, w.len() as int));
    lemma_escaped_injective(s1, s2);
}

} // verus!
