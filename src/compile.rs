use vstd::prelude::*;

use crate::parse::{line_spec, parse_line, Entry, ErrorSpec, LineError, LineSpec, error_view};
use crate::unit::{
    base_name, env_pairs, is_blank, service_text, synthesize, timer_text, CompiledUnit, EnvVar,
    SynthesisError, UnitOptions,
};

verus! {

/// A line or a job that was skipped, and why.
#[derive(Clone, Debug)]
pub enum Diagnostic {
    Parse(LineError),
    /// The job on this line could not become units.
    Synthesis(usize, SynthesisError),
}

/// What one crontab compiles to.
#[derive(Clone, Debug)]
pub struct FileOutput {
    pub units: Vec<CompiledUnit>,
    pub diagnostics: Vec<Diagnostic>,
}

pub struct UnitSpec {
    pub base: Seq<char>,
    pub timer: Seq<char>,
    pub service: Seq<char>,
}

pub enum DiagSpec {
    /// The line number, the line's text, and the error.
    Parse(nat, Seq<char>, ErrorSpec),
    Synthesis(nat),
}

pub open spec fn unit_view(u: CompiledUnit) -> UnitSpec {
    UnitSpec { base: u.base_name@, timer: u.timer@, service: u.service@ }
}

pub open spec fn diag_view(d: Diagnostic) -> DiagSpec {
    match d {
        Diagnostic::Parse(e) => DiagSpec::Parse(e.line as nat, e.text@, error_view(e.error)),
        Diagnostic::Synthesis(n, _) => DiagSpec::Synthesis(n as nat),
    }
}

/// Where `name` stands in the environment, if it does.
pub open spec fn env_find(env: Seq<(Seq<char>, Seq<char>)>, name: Seq<char>) -> Option<int> {
    if exists|i: int| 0 <= i < env.len() && env[i].0 == name {
        Some(choose|i: int| 0 <= i < env.len() && env[i].0 == name)
    } else {
        None
    }
}

/// Sets `name` to `value`: in place where it is set already, else at the end.
pub open spec fn env_assign(env: Seq<(Seq<char>, Seq<char>)>, name: Seq<char>, value: Seq<char>) -> Seq<
    (Seq<char>, Seq<char>),
> {
    match env_find(env, name) {
        Some(i) => env.update(i, (name, value)),
        None => env.push((name, value)),
    }
}

/// No name stands twice.
pub open spec fn names_unique(env: Seq<(Seq<char>, Seq<char>)>) -> bool {
    forall|i: int, j: int| 0 <= i < j < env.len() ==> env[i].0 != env[j].0
}

pub open spec fn texts(lines: Seq<String>) -> Seq<Seq<char>> {
    lines.map_values(|l: String| l@)
}

/// The environment after the first `n` lines.
pub open spec fn env_after(lines: Seq<Seq<char>>, system: bool, n: int) -> Seq<(Seq<char>, Seq<char>)>
    decreases n,
{
    if n <= 0 || n > lines.len() {
        Seq::empty()
    } else {
        let prev = env_after(lines, system, n - 1);
        match line_spec(lines[n - 1], system) {
            LineSpec::Env(k, v) => env_assign(prev, k, v),
            _ => prev,
        }
    }
}

/// The units of the jobs among the first `n` lines: each job sees the
/// environment of the lines above it.
pub open spec fn units_after(
    source: Seq<char>,
    lines: Seq<Seq<char>>,
    system: bool,
    persistent: bool,
    runner: Seq<char>,
    n: int,
) -> Seq<UnitSpec>
    decreases n,
{
    if n <= 0 || n > lines.len() {
        Seq::empty()
    } else {
        let prev = units_after(source, lines, system, persistent, runner, n - 1);
        match line_spec(lines[n - 1], system) {
            LineSpec::Job(sched, user, cmd) => if is_blank(cmd) {
                prev
            } else {
                let b = base_name(source, n as nat);
                prev.push(
                    UnitSpec {
                        base: b,
                        timer: timer_text(sched, b, persistent),
                        service: service_text(cmd, user, env_after(lines, system, n - 1), runner),
                    },
                )
            },
            _ => prev,
        }
    }
}

/// The diagnostics of the first `n` lines, in order.
pub open spec fn diagnostics_after(lines: Seq<Seq<char>>, system: bool, n: int) -> Seq<DiagSpec>
    decreases n,
{
    if n <= 0 || n > lines.len() {
        Seq::empty()
    } else {
        let prev = diagnostics_after(lines, system, n - 1);
        match line_spec(lines[n - 1], system) {
            LineSpec::Error(e) => prev.push(DiagSpec::Parse(n as nat, lines[n - 1], e)),
            LineSpec::Job(_, _, cmd) => if is_blank(cmd) {
                prev.push(DiagSpec::Synthesis(n as nat))
            } else {
                prev
            },
            _ => prev,
        }
    }
}

/// Sets a variable of the environment.
pub fn assign_env(env: &mut Vec<EnvVar>, name: String, value: String)
    requires
        names_unique(env_pairs(old(env)@)),
    ensures
        env_pairs(final(env)@) == env_assign(env_pairs(old(env)@), name@, value@),
        names_unique(env_pairs(final(env)@)),
{
    let ghost pairs = env_pairs(env@);
    let mut i: usize = 0;
    while i < env.len()
        invariant
            i <= env.len(),
            env@ == old(env)@,
            pairs == env_pairs(env@),
            names_unique(pairs),
            forall|k: int| 0 <= k < i ==> pairs[k].0 != name@,
        decreases env.len() - i,
    {
        if env[i].name == name {
            proof {
                assert(pairs[i as int].0 == name@);
                let j = env_find(pairs, name@)->0;
                if j < i as int {
                    assert(pairs[j].0 != pairs[i as int].0);
                } else if j > i as int {
                    assert(pairs[i as int].0 != pairs[j].0);
                }
                assert(j == i as int);
            }
            env.set(i, EnvVar { name, value });
            assert(env_pairs(env@) =~= pairs.update(i as int, (name@, value@)));
            return;
        }
        i = i + 1;
    }
    env.push(EnvVar { name, value });
    assert(env_pairs(env@) =~= pairs.push((name@, value@)));
}

/// Compiles the lines of one crontab, named `source`: each job becomes a
/// timer and a service, each malformed line and each job without a command
/// becomes a diagnostic, and neither stops the lines after it.
pub fn compile_crontab(source: &str, lines: &Vec<String>, system: bool, opts: &UnitOptions) -> (r: FileOutput)
    ensures
        r.units@.map_values(|u: CompiledUnit| unit_view(u)) == units_after(
            source@,
            texts(lines@),
            system,
            opts.persistent,
            opts.runner@,
            lines@.len() as int,
        ),
        r.diagnostics@.map_values(|d: Diagnostic| diag_view(d)) == diagnostics_after(
            texts(lines@),
            system,
            lines@.len() as int,
        ),
{
    let ghost ls = texts(lines@);
    let mut env: Vec<EnvVar> = Vec::new();
    let mut units: Vec<CompiledUnit> = Vec::new();
    let mut diagnostics: Vec<Diagnostic> = Vec::new();
    let mut i: usize = 0;
    while i < lines.len()
        invariant
            i <= lines.len(),
            ls == texts(lines@),
            env_pairs(env@) == env_after(ls, system, i as int),
            names_unique(env_pairs(env@)),
            units@.map_values(|u: CompiledUnit| unit_view(u)) == units_after(
                source@,
                ls,
                system,
                opts.persistent,
                opts.runner@,
                i as int,
            ),
            diagnostics@.map_values(|d: Diagnostic| diag_view(d)) == diagnostics_after(ls, system, i as int),
        decreases lines.len() - i,
    {
        let ghost before_units = units@;
        let ghost before_diags = diagnostics@;
        assert(ls[i as int] == lines@[i as int]@);
        match parse_line(lines[i].as_str(), i + 1, system) {
            None => {},
            Some(Ok(Entry::Env(v))) => {
                assign_env(&mut env, v.name, v.value);
            },
            Some(Ok(Entry::Job(job))) => {
                match synthesize(&job, &env, source, opts) {
                    Ok(u) => {
                        units.push(u);
                        assert(units@.map_values(|u: CompiledUnit| unit_view(u)) =~= before_units.map_values(
                            |u: CompiledUnit| unit_view(u),
                        ).push(unit_view(u)));
                    },
                    Err(e) => {
                        diagnostics.push(Diagnostic::Synthesis(i + 1, e));
                        assert(diagnostics@.map_values(|d: Diagnostic| diag_view(d)) =~= before_diags.map_values(
                            |d: Diagnostic| diag_view(d),
                        ).push(DiagSpec::Synthesis((i + 1) as nat)));
                    },
                }
            },
            Some(Err(e)) => {
                let ghost ev = error_view(e.error);
                let ghost et = e.text@;
                diagnostics.push(Diagnostic::Parse(e));
                assert(diagnostics@.map_values(|d: Diagnostic| diag_view(d)) =~= before_diags.map_values(
                    |d: Diagnostic| diag_view(d),
                ).push(DiagSpec::Parse((i + 1) as nat, et, ev)));
            },
        }
        i = i + 1;
    }
    FileOutput { units, diagnostics }
}


proof fn lemma_assign_keeps(env: Seq<(Seq<char>, Seq<char>)>, name: Seq<char>, value: Seq<char>, other: Seq<char>, v: Seq<char>)
    requires
        names_unique(env),
    ensures
        names_unique(env_assign(env, name, value)),
        env_assign(env, name, value).contains((name, value)),
        other != name && env.contains((other, v)) ==> env_assign(env, name, value).contains((other, v)),
{
    let r = env_assign(env, name, value);
    match env_find(env, name) {
        Some(i) => {
            assert(r[i] == (name, value));
            if other != name && env.contains((other, v)) {
                let k = choose|k: int| 0 <= k < env.len() && env[k] == (other, v);
                assert(r[k] == (other, v));
            }
        },
        None => {
            assert(r[env.len() as int] == (name, value));
            if other != name && env.contains((other, v)) {
                let k = choose|k: int| 0 <= k < env.len() && env[k] == (other, v);
                assert(r[k] == (other, v));
            }
        },
    }
}

proof fn lemma_env_unique(lines: Seq<Seq<char>>, system: bool, n: int)
    ensures
        names_unique(env_after(lines, system, n)),
    decreases n,
{
    if n > 0 && n <= lines.len() {
        lemma_env_unique(lines, system, n - 1);
        if let LineSpec::Env(k, v) = line_spec(lines[n - 1], system) {
            lemma_assign_keeps(env_after(lines, system, n - 1), k, v, k, v);
        }
    }
}

/// An assignment on line `k + 1` is what every later line sees of its name
/// until a later line assigns that name again; the environment never holds
/// a name twice.
pub proof fn lemma_env_latest_assignment(lines: Seq<Seq<char>>, system: bool, k: int, n: int, name: Seq<char>, value: Seq<char>)
    requires
        0 <= k < n <= lines.len(),
        line_spec(lines[k], system) == LineSpec::Env(name, value),
        forall|j: int| k < j < n ==> !(#[trigger] line_spec(lines[j], system) is Env && line_spec(lines[j], system)->Env_0 == name),
    ensures
        env_after(lines, system, n).contains((name, value)),
        names_unique(env_after(lines, system, n)),
    decreases n,
{
    lemma_env_unique(lines, system, n);
    lemma_env_unique(lines, system, n - 1);
    if n - 1 == k {
        lemma_assign_keeps(env_after(lines, system, k), name, value, name, value);
    } else {
        lemma_env_latest_assignment(lines, system, k, n - 1, name, value);
        if let LineSpec::Env(a, b) = line_spec(lines[n - 1], system) {
            assert(k < n - 1 < n);
            lemma_assign_keeps(env_after(lines, system, n - 1), a, b, name, value);
        }
    }
}


/// Compiling is a function of its inputs: two runs over the same lines give
/// the same units, byte for byte, and the same diagnostics.
pub proof fn lemma_compile_deterministic(
    source: Seq<char>,
    lines: Seq<Seq<char>>,
    system: bool,
    persistent: bool,
    runner: Seq<char>,
    first: Seq<UnitSpec>,
    second: Seq<UnitSpec>,
)
    requires
        first == units_after(source, lines, system, persistent, runner, lines.len() as int),
        second == units_after(source, lines, system, persistent, runner, lines.len() as int),
    ensures
        first == second,
{
}

/// Whether a directory entry is a crontab to compile: its name does not
/// start with a dot, and it is a regular file. Where its kind could not be
/// read (`None`) it is kept, so that reading it reports the failure.
pub fn include_entry(name: &str, is_file: Option<bool>) -> (r: bool)
    ensures
        r == ((name@.len() == 0 || name@[0] != '.') && is_file != Some(false)),
{
    let cs = crate::text::chars_of(name);
    let hidden = cs.len() > 0 && cs[0] == '.';
    let regular = match is_file {
        Some(f) => f,
        None => true,
    };
    !hidden && regular
}


/// Each parse diagnostic names a line of the file and carries that line's text.
pub proof fn lemma_diagnostics_carry_lines(lines: Seq<Seq<char>>, system: bool, n: int)
    requires
        0 <= n <= lines.len(),
    ensures
        forall|i: int|
            0 <= i < diagnostics_after(lines, system, n).len() ==> match #[trigger] diagnostics_after(
                lines,
                system,
                n,
            )[i] {
                DiagSpec::Parse(k, t, _) => 1 <= k <= n && t == lines[k - 1],
                DiagSpec::Synthesis(k) => 1 <= k <= n,
            },
    decreases n,
{
    if n > 0 {
        lemma_diagnostics_carry_lines(lines, system, n - 1);
        let prev = diagnostics_after(lines, system, n - 1);
        let cur = diagnostics_after(lines, system, n);
        assert forall|i: int| 0 <= i < cur.len() implies match #[trigger] cur[i] {
            DiagSpec::Parse(k, t, _) => 1 <= k <= n && t == lines[k - 1],
            DiagSpec::Synthesis(k) => 1 <= k <= n,
        } by {
            if i < prev.len() {
                assert(cur[i] == prev[i]);
            }
        }
    }
}

/// A malformed line counts toward numbering like any other: replacing it by
/// a comment changes neither the environment nor any unit, so the jobs keep
/// their line numbers, names and bodies.
pub proof fn lemma_malformed_line_as_comment(
    source: Seq<char>,
    a: Seq<Seq<char>>,
    b: Seq<Seq<char>>,
    system: bool,
    persistent: bool,
    runner: Seq<char>,
    m: int,
    n: int,
)
    requires
        a.len() == b.len(),
        0 <= m < a.len(),
        line_spec(a[m], system) is Error,
        line_spec(b[m], system) is Skip,
        forall|i: int| 0 <= i < a.len() && i != m ==> a[i] == b[i],
    ensures
        env_after(a, system, n) == env_after(b, system, n),
        units_after(source, a, system, persistent, runner, n) == units_after(source, b, system, persistent, runner, n),
    decreases n,
{
    if n > 0 && n <= a.len() {
        lemma_malformed_line_as_comment(source, a, b, system, persistent, runner, m, n - 1);
        if n - 1 != m {
            assert(a[n - 1] == b[n - 1]);
        }
    }
}

} // verus!
