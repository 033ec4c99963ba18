use vstd::prelude::*;

use crate::text::{push_str, string_of};
use crate::unit::{timer_body, timer_text, Period, Schedule, ScheduleSpec};

verus! {

/// The timer, service and target of one named schedule.
#[derive(Clone, Debug)]
pub struct NamedUnits {
    /// `cron-<word>`, the stem of the three file names.
    pub base_name: String,
    pub timer: String,
    pub service: String,
    pub target: String,
}

/// The word that names a schedule in file and directory names.
pub open spec fn schedule_word(p: Period) -> Seq<char> {
    match p {
        Period::Reboot => "boot"@,
        Period::Minutely => "minutely"@,
        Period::Hourly => "hourly"@,
        Period::Daily => "daily"@,
        Period::Weekly => "weekly"@,
        Period::Monthly => "monthly"@,
        Period::Quarterly => "quarterly"@,
        Period::SemiAnnually => "semi-annually"@,
        Period::Yearly => "yearly"@,
    }
}

pub open spec fn named_base(p: Period) -> Seq<char> {
    "cron-"@ + schedule_word(p)
}

/// A service that runs every script of `<confdir>/cron.<word>`.
pub open spec fn named_service_text(p: Period, run_parts: Seq<char>, confdir: Seq<char>) -> Seq<char> {
    "[Unit]\nDescription="@ + named_base(p) + " scripts\nPartOf="@ + named_base(p) + ".target\n\n[Service]\nType=oneshot\nExecStart="@
        + run_parts + seq![' '] + confdir + "/cron."@ + schedule_word(p) + seq!['\n']
}

/// A target that groups the timer and the service.
pub open spec fn named_target_text(p: Period) -> Seq<char> {
    "[Unit]\nDescription="@ + named_base(p) + " target\nStopWhenUnneeded=yes\n\n[Install]\nWantedBy=cron.target\nAlso="@
        + named_base(p) + ".timer\n"@
}

fn word(p: Period) -> (r: &'static str)
    ensures
        r@ == schedule_word(p),
{
    match p {
        Period::Reboot => "boot",
        Period::Minutely => "minutely",
        Period::Hourly => "hourly",
        Period::Daily => "daily",
        Period::Weekly => "weekly",
        Period::Monthly => "monthly",
        Period::Quarterly => "quarterly",
        Period::SemiAnnually => "semi-annually",
        Period::Yearly => "yearly",
    }
}

/// The units of a named schedule: a timer on the schedule's fixed
/// expression (or at boot), a service that runs the scripts of the
/// schedule's directory under `confdir` through `run_parts`, and a target.
pub fn named_units(p: Period, persistent: bool, run_parts: &str, confdir: &str) -> (r: NamedUnits)
    ensures
        r.base_name@ == named_base(p),
        r.timer@ == timer_text(ScheduleSpec::Keyword(p), named_base(p), persistent),
        r.service@ == named_service_text(p, run_parts@, confdir@),
        r.target@ == named_target_text(p),
{
    let w = word(p);
    let mut b: Vec<char> = Vec::new();
    push_str(&mut b, "cron-");
    push_str(&mut b, w);
    let base_name = string_of(b.as_slice());
    let timer = timer_body(&Schedule::Keyword(p), base_name.as_str(), persistent);

    let mut s: Vec<char> = Vec::new();
    push_str(&mut s, "[Unit]\nDescription=");
    push_str(&mut s, base_name.as_str());
    push_str(&mut s, " scripts\nPartOf=");
    push_str(&mut s, base_name.as_str());
    push_str(&mut s, ".target\n\n[Service]\nType=oneshot\nExecStart=");
    push_str(&mut s, run_parts);
    s.push(' ');
    push_str(&mut s, confdir);
    push_str(&mut s, "/cron.");
    push_str(&mut s, w);
    s.push('\n');

    let mut t: Vec<char> = Vec::new();
    push_str(&mut t, "[Unit]\nDescription=");
    push_str(&mut t, base_name.as_str());
    push_str(&mut t, " target\nStopWhenUnneeded=yes\n\n[Install]\nWantedBy=cron.target\nAlso=");
    push_str(&mut t, base_name.as_str());
    push_str(&mut t, ".timer\n");

    NamedUnits { base_name, timer, service: string_of(s.as_slice()), target: string_of(t.as_slice()) }
}

} // verus!
