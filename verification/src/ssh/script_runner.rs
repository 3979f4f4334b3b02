//! Running a script: which step runs, with which command, and what it leaves
//! for the step behind it.
use vstd::prelude::*;
use vstd::slice::slice_subrange;

use crate::config::model::{Script, ScriptStep, ServerEntry, StepCondition};
use crate::text::{
    chars_of, contains, decimal, find, find_from, has_part, is_text, lemma_find_from, number, stands_at, text_of, trim,
    trimmed,
};

verus! {

/// Seconds that a step gets when it does not say how long it may take.
pub const STEP_TIMEOUT_SECS: u64 = 120;

/// Exit code a timed-out step is recorded with, so that the next step sees a
/// failure rather than a skip.
pub const TIMEOUT_EXIT_CODE: i32 = 124;

/// The placeholders a step command may use, resolved from the server the script
/// runs on.
pub struct ScriptVars {
    pub name: String,
    pub host: String,
    pub port: u16,
    pub username: String,
}

/// Outcome of one step, used only to judge the next step's condition.
pub enum StepStatus {
    Ran { exit_code: i32, output: String },
    Skipped,
}

impl Clone for StepStatus {
    fn clone(&self) -> (r: Self)
        ensures
            r == *self,
    {
        match self {
            StepStatus::Ran { exit_code, output } => StepStatus::Ran { exit_code: *exit_code, output: output.clone() },
            StepStatus::Skipped => StepStatus::Skipped,
        }
    }
}

/// The text `{{`.
pub open spec fn opener() -> Seq<char> {
    seq!['{', '{']
}

/// The text `}}`.
pub open spec fn closer() -> Seq<char> {
    seq!['}', '}']
}

impl ScriptVars {
    /// The variables of a server.
    pub fn from_entry(entry: &ServerEntry) -> (r: Self)
        ensures
            r.name == entry.name,
            r.host == entry.host,
            r.port == entry.port,
            r.username == entry.username,
    {
        ScriptVars {
            name: entry.name.clone(),
            host: entry.host.clone(),
            port: entry.port,
            username: entry.username.clone(),
        }
    }

    /// What a placeholder stands for.
    pub open spec fn of(self, key: Seq<char>) -> Option<Seq<char>> {
        if key == "name"@ {
            Some(self.name@)
        } else if key == "host"@ {
            Some(self.host@)
        } else if key == "port"@ {
            Some(decimal(self.port as nat))
        } else if key == "username"@ {
            Some(self.username@)
        } else {
            None
        }
    }

    /// `command` from position `from` on, with every known placeholder
    /// replaced.
    pub open spec fn expanded_from(self, command: Seq<char>, from: int) -> Seq<char>
        decreases command.len() - from,
    {
        if from < 0 || from > command.len() {
            Seq::empty()
        } else {
            match find_from(command, opener(), from) {
                None => command.skip(from),
                Some(open) => if open < from || open + 2 > command.len() {
                    command.skip(from)
                } else {
                    let before = command.subrange(from, open);
                    match self.placeholder_at(command, open) {
                        Some((value, after)) => before + value + self.expanded_from(command, after),
                        None => before + opener() + self.expanded_from(command, open + 2),
                    }
                },
            }
        }
    }

    /// What the placeholder that opens at `open` stands for, and where it ends.
    pub open spec fn placeholder_at(self, command: Seq<char>, open: int) -> Option<(Seq<char>, int)> {
        match find_from(command, closer(), open + 2) {
            Some(close) => if open + 2 <= close <= command.len() - 2 {
                match self.of(trimmed(command.subrange(open + 2, close))) {
                    Some(value) => Some((value, close + 2)),
                    None => None,
                }
            } else {
                None
            },
            None => None,
        }
    }

    /// `command` with every known placeholder replaced.
    pub open spec fn expanded(self, command: Seq<char>) -> Seq<char> {
        self.expanded_from(command, 0)
    }

    fn value(&self, key: &[char]) -> (r: Option<String>)
        ensures
            match r {
                Some(v) => self.of(key@) == Some(v@),
                None => self.of(key@) is None,
            },
    {
        if is_text(key, "name") {
            Some(self.name.clone())
        } else if is_text(key, "host") {
            Some(self.host.clone())
        } else if is_text(key, "port") {
            Some(number(self.port as u64))
        } else if is_text(key, "username") {
            Some(self.username.clone())
        } else {
            None
        }
    }

    /// Substitutes every known `{{key}}` in `command`, literally and without
    /// quoting: quoting is the user's job, exactly as it is in a shell alias.
    ///
    /// An unknown placeholder is left standing rather than replaced with
    /// nothing, and the search resumes inside it, so that a `}}` that closes
    /// nothing cannot swallow a later placeholder.
    pub fn expand(&self, command: &str) -> (r: String)
        ensures
            r@ == self.expanded(command@),
    {
        let all: Vec<char> = chars_of(command);
        let open_mark: [char; 2] = ['{', '{'];
        let close_mark: [char; 2] = ['}', '}'];
        assert(open_mark@ =~= opener());
        assert(close_mark@ =~= closer());
        let mut out = String::new();
        let mut at: usize = 0;
        assert(out@ + self.expanded_from(command@, 0) =~= self.expanded(command@));
        loop
            invariant
                all@ == command@,
                open_mark@ == opener(),
                close_mark@ == closer(),
                at <= all@.len(),
                self.expanded(command@) == out@ + self.expanded_from(command@, at as int),
            decreases all@.len() - at,
        {
            let ghost before = out@;
            proof {
                lemma_find_from(command@, opener(), at as int);
            }
            let open: usize = match find(&all, &open_mark, at) {
                Some(open) => open,
                None => {
                    let rest = text_of(slice_subrange(&all, at, all.len()));
                    assert(rest@ =~= command@.skip(at as int));
                    out.push_str(rest.as_str());
                    return out;
                },
            };
            let total: usize = all.len();
            assert(opener().len() == 2 && closer().len() == 2);
            assert(open + 2 <= total);
            let literal = text_of(slice_subrange(&all, at, open));
            out.push_str(literal.as_str());
            proof {
                lemma_find_from(command@, closer(), open + 2);
            }
            let mut known: bool = false;
            match find(&all, &close_mark, open + 2) {
                Some(close) => {
                    assert(close + 2 <= total);
                    let key = slice_subrange(&all, open + 2, close);
                    match self.value(trim(key)) {
                        Some(value) => {
                            out.push_str(value.as_str());
                            known = true;
                            assert(self.placeholder_at(command@, open as int) == Some((value@, close + 2)));
                            at = close + 2;
                            assert(self.expanded(command@) =~= out@ + self.expanded_from(command@, at as int));
                        },
                        None => {},
                    }
                },
                None => {},
            }
            if !known {
                assert(self.placeholder_at(command@, open as int) is None);
                out.push('{');
                out.push('{');
                at = open + 2;
                assert(self.expanded(command@) =~= out@ + self.expanded_from(command@, at as int));
            }
        }
    }

    /// Whether `r` is `script` with every step's command expanded and nothing
    /// else changed.
    pub open spec fn is_expansion(self, script: Script, r: Script) -> bool {
        &&& r.id == script.id
        &&& r.name == script.name
        &&& r.run_on_connect == script.run_on_connect
        &&& r.steps@.len() == script.steps@.len()
        &&& forall|i: int|
            0 <= i < script.steps@.len() ==> {
                &&& (#[trigger] r.steps@[i]).command@ == self.expanded(script.steps@[i].command@)
                &&& r.steps@[i].condition == script.steps@[i].condition
                &&& r.steps@[i].timeout_secs == script.steps@[i].timeout_secs
            }
    }

    /// A copy of `script` with every step's command expanded. Only the command
    /// is substituted: a needle to look for in the output is not sent to the
    /// shell.
    pub fn expand_script(&self, script: &Script) -> (r: Script)
        ensures
            self.is_expansion(*script, r),
    {
        let mut steps: Vec<ScriptStep> = Vec::new();
        let mut i: usize = 0;
        while i < script.steps.len()
            invariant
                i <= script.steps@.len(),
                steps@.len() == i,
                forall|j: int|
                    0 <= j < i ==> {
                        &&& (#[trigger] steps@[j]).command@ == self.expanded(script.steps@[j].command@)
                        &&& steps@[j].condition == script.steps@[j].condition
                        &&& steps@[j].timeout_secs == script.steps@[j].timeout_secs
                    },
            decreases script.steps@.len() - i,
        {
            let step = &script.steps[i];
            steps.push(
                ScriptStep {
                    command: self.expand(step.command.as_str()),
                    condition: step.condition.clone(),
                    timeout_secs: step.timeout_secs,
                },
            );
            i = i + 1;
        }
        Script { id: script.id, name: script.name.clone(), run_on_connect: script.run_on_connect, steps }
    }
}

/// A command without `{{` is sent as it is written.
pub proof fn a_command_without_placeholders_is_unchanged(vars: ScriptVars, command: Seq<char>)
    requires
        !has_part(command, opener()),
    ensures
        vars.expanded(command) == command,
{
    lemma_find_from(command, opener(), 0);
    match find_from(command, opener(), 0) {
        Some(i) => {
            assert(stands_at(command, opener(), i));
        },
        None => {},
    }
    assert(command.skip(0) =~= command);
}

/// Whether a step with this condition runs behind `prev`.
pub open spec fn runs_after(condition: StepCondition, prev: Option<StepStatus>) -> bool {
    match condition {
        StepCondition::Always => true,
        StepCondition::OnSuccess => prev matches Some(StepStatus::Ran { exit_code, .. }) && exit_code == 0,
        StepCondition::OnFailure => prev matches Some(StepStatus::Ran { exit_code, .. }) && exit_code != 0,
        StepCondition::OutputContains(needle) => prev matches Some(StepStatus::Ran { output, .. }) && has_part(
            output@,
            needle@,
        ),
    }
}

/// Whether a step should run, by the step before it. A skipped step fails every
/// condition except `Always`, which is how a skip cascades down a chain of
/// conditional steps until one of them is unconditional again.
pub fn should_run(condition: &StepCondition, prev: Option<&StepStatus>) -> (r: bool)
    ensures
        r == runs_after(
            *condition,
            match prev {
                Some(s) => Some(*s),
                None => None,
            },
        ),
{
    match condition {
        StepCondition::Always => true,
        StepCondition::OnSuccess => match prev {
            Some(StepStatus::Ran { exit_code, .. }) => *exit_code == 0,
            _ => false,
        },
        StepCondition::OnFailure => match prev {
            Some(StepStatus::Ran { exit_code, .. }) => *exit_code != 0,
            _ => false,
        },
        StepCondition::OutputContains(needle) => match prev {
            Some(StepStatus::Ran { output, .. }) => contains(
                &chars_of(output.as_str()),
                &chars_of(needle.as_str()),
            ),
            _ => false,
        },
    }
}

/// Behind a skipped step only an unconditional one runs.
pub proof fn a_skip_cascades(condition: StepCondition)
    ensures
        runs_after(condition, Some(StepStatus::Skipped)) <==> condition is Always,
{
}

/// A step killed by its timeout looks like a failure to the next step.
pub proof fn a_timeout_reads_as_a_failure(output: String)
    ensures
        runs_after(
            StepCondition::OnFailure,
            Some(StepStatus::Ran { exit_code: TIMEOUT_EXIT_CODE, output }),
        ),
        !runs_after(
            StepCondition::OnSuccess,
            Some(StepStatus::Ran { exit_code: TIMEOUT_EXIT_CODE, output }),
        ),
{
}

/// What running one step's command over a channel came back with.
pub enum StepOutcome {
    Finished { exit_code: i32, output: String },
    /// It ran but did not finish; what it wrote still counts.
    TimedOut { output: String },
    /// The channel itself failed.
    Failed { message: String },
}

/// What the run reports.
pub enum RunEvent {
    StepStarted { index: usize, command: String },
    Output { index: usize, chunk: Vec<u8> },
    StepFinished { index: usize, exit_code: i32 },
    StepSkipped { index: usize },
    /// The exec channel itself failed, as opposed to a step exiting non-zero.
    StepError { index: usize, message: String },
    /// The step outlived its time: the number of seconds that was applied.
    StepTimedOut { index: usize, seconds: u64 },
}

/// What to do about the next step.
pub enum RunAction {
    /// Run this command for at most so many seconds, then hand back the outcome.
    Start { index: usize, command: String, timeout_secs: u64 },
    /// The step is left out, and is already recorded as skipped.
    Skip { index: usize },
    /// Every step has been dealt with.
    Done,
}

/// The time a step may take.
pub open spec fn step_timeout(step: ScriptStep) -> u64 {
    match step.timeout_secs {
        Some(secs) => secs,
        None => STEP_TIMEOUT_SECS,
    }
}

/// How an outcome is recorded for the step behind it.
pub open spec fn recorded(outcome: StepOutcome) -> StepStatus {
    match outcome {
        StepOutcome::Finished { exit_code, output } => StepStatus::Ran { exit_code, output },
        StepOutcome::TimedOut { output } => StepStatus::Ran { exit_code: TIMEOUT_EXIT_CODE, output },
        StepOutcome::Failed { .. } => StepStatus::Skipped,
    }
}

/// A script run: the outcomes so far, one for each step dealt with.
pub struct ScriptRun {
    pub results: Vec<StepStatus>,
}

impl ScriptRun {
    /// A run that has not begun.
    pub fn new() -> (r: Self)
        ensures
            r.results@ == Seq::<StepStatus>::empty(),
    {
        ScriptRun { results: Vec::new() }
    }

    /// Whether the next step of `script` runs: the first one always does.
    pub open spec fn next_runs(self, script: Script) -> bool {
        let i = self.results@.len() as int;
        i == 0 || runs_after(script.steps@[i].condition, Some(self.results@[i - 1]))
    }

    /// Decides about the next step. A step that is left out is recorded at once.
    pub fn advance(&mut self, script: &Script) -> (r: RunAction)
        requires
            old(self).results@.len() <= script.steps@.len(),
        ensures
            ({
                let i = old(self).results@.len() as int;
                if i == script.steps@.len() {
                    r is Done && final(self).results@ == old(self).results@
                } else if old(self).next_runs(*script) {
                    &&& r matches RunAction::Start { index, command, timeout_secs } && index == i && command
                        == script.steps@[i].command && timeout_secs == step_timeout(script.steps@[i])
                    &&& final(self).results@ == old(self).results@
                } else {
                    &&& r matches RunAction::Skip { index } && index == i
                    &&& final(self).results@ == old(self).results@.push(StepStatus::Skipped)
                }
            }),
    {
        let index: usize = self.results.len();
        if index == script.steps.len() {
            return RunAction::Done;
        }
        let step = &script.steps[index];
        if index != 0 && !should_run(&step.condition, Some(&self.results[index - 1])) {
            self.results.push(StepStatus::Skipped);
            return RunAction::Skip { index };
        }
        let timeout_secs: u64 = match step.timeout_secs {
            Some(secs) => secs,
            None => STEP_TIMEOUT_SECS,
        };
        RunAction::Start { index, command: step.command.clone(), timeout_secs }
    }

    /// Records the outcome of the step that was started, and says what to
    /// report about it.
    pub fn record(&mut self, outcome: StepOutcome, timeout_secs: u64) -> (r: RunEvent)
        ensures
            final(self).results@ == old(self).results@.push(recorded(outcome)),
            ({
                let i = old(self).results@.len();
                match outcome {
                    StepOutcome::Finished { exit_code, .. } => r == (RunEvent::StepFinished {
                        index: i as usize,
                        exit_code,
                    }),
                    StepOutcome::TimedOut { .. } => r == (RunEvent::StepTimedOut {
                        index: i as usize,
                        seconds: timeout_secs,
                    }),
                    StepOutcome::Failed { message } => r == (RunEvent::StepError { index: i as usize, message }),
                }
            }),
    {
        let index: usize = self.results.len();
        match outcome {
            StepOutcome::Finished { exit_code, output } => {
                self.results.push(StepStatus::Ran { exit_code, output });
                RunEvent::StepFinished { index, exit_code }
            },
            StepOutcome::TimedOut { output } => {
                self.results.push(StepStatus::Ran { exit_code: TIMEOUT_EXIT_CODE, output });
                RunEvent::StepTimedOut { index, seconds: timeout_secs }
            },
            StepOutcome::Failed { message } => {
                self.results.push(StepStatus::Skipped);
                RunEvent::StepError { index, message }
            },
        }
    }
}

/// A step behind one that ran is decided by that one's exit code or output
/// alone: on success by the exit code 0, on failure by any other, and on a text
/// by whether the output has it, whatever the exit code. An unconditional step
/// runs in any case.
pub proof fn a_step_runs_by_what_the_last_one_did(condition: StepCondition, exit_code: i32, output: String)
    ensures
        ({
            let runs = runs_after(condition, Some(StepStatus::Ran { exit_code, output }));
            &&& condition is Always ==> runs
            &&& condition is OnSuccess ==> (runs <==> exit_code == 0)
            &&& condition is OnFailure ==> (runs <==> exit_code != 0)
            &&& condition matches StepCondition::OutputContains(needle) ==> (runs <==> exists|i: int|
                0 <= i && i + needle@.len() <= output@.len() && #[trigger] output@.subrange(i, i + needle@.len())
                    == needle@)
        }),
{
    if let StepCondition::OutputContains(needle) = condition {
        if has_part(output@, needle@) {
            let i = choose|i: int| stands_at(output@, needle@, i);
            assert(output@.subrange(i, i + needle@.len()) == needle@);
        }
        if exists|i: int|
            0 <= i && i + needle@.len() <= output@.len() && #[trigger] output@.subrange(i, i + needle@.len())
                == needle@ {
            let i = choose|i: int|
                0 <= i && i + needle@.len() <= output@.len() && #[trigger] output@.subrange(i, i + needle@.len())
                    == needle@;
            assert(stands_at(output@, needle@, i));
        }
    }
}

/// For a step that waits for a text, two exit codes make no difference.
pub proof fn the_exit_code_does_not_hide_the_output(needle: String, a: i32, b: i32, output: String)
    ensures
        runs_after(StepCondition::OutputContains(needle), Some(StepStatus::Ran { exit_code: a, output })) == runs_after(
            StepCondition::OutputContains(needle),
            Some(StepStatus::Ran { exit_code: b, output }),
        ),
{
}

/// Behind nothing only an unconditional step runs; but the first step of a
/// script runs whatever its condition says.
pub proof fn the_first_step_runs(run: ScriptRun, script: Script, condition: StepCondition)
    requires
        run.results@.len() == 0,
    ensures
        run.next_runs(script),
        runs_after(condition, None) <==> condition is Always,
{
}

/// Every further step is judged by its own condition and by the step right
/// before it, and by nothing else.
pub proof fn only_the_last_step_counts(a: ScriptRun, b: ScriptRun, script: Script)
    requires
        a.results@.len() == b.results@.len(),
        0 < a.results@.len() < script.steps@.len(),
        a.results@.last() == b.results@.last(),
    ensures
        a.next_runs(script) == b.next_runs(script),
        a.next_runs(script) == runs_after(script.steps@[a.results@.len() as int].condition, Some(a.results@.last())),
{
}

/// What a step leaves behind: one that finished keeps its exit code and output;
/// one that outlived its time failed with code 124, and what it wrote still
/// counts; a broken channel is a skip.
pub proof fn an_outcome_is_kept_for_the_next_step(outcome: StepOutcome)
    ensures
        outcome matches StepOutcome::Finished { exit_code, output } ==> recorded(outcome) == (StepStatus::Ran {
            exit_code,
            output,
        }),
        outcome matches StepOutcome::TimedOut { output } ==> recorded(outcome) == (StepStatus::Ran {
            exit_code: 124,
            output,
        }),
        outcome is Failed ==> recorded(outcome) is Skipped,
{
}

/// A step gets the time it asks for, and two minutes where it asks for none.
pub proof fn a_step_gets_the_time_it_asks_for(step: ScriptStep)
    ensures
        step.timeout_secs matches Some(secs) ==> step_timeout(step) == secs,
        step.timeout_secs is None ==> step_timeout(step) == 120,
{
}

/// Whether a text names a placeholder, and the value that it has for a server.
pub open spec fn is_value(vars: ScriptVars, key: Seq<char>, value: Seq<char>) -> bool {
    ||| key == "name"@ && value == vars.name@
    ||| key == "host"@ && value == vars.host@
    ||| key == "port"@ && value == decimal(vars.port as nat)
    ||| key == "username"@ && value == vars.username@
}

proof fn lemma_keys()
    ensures
        "name"@ == seq!['n', 'a', 'm', 'e'],
        "host"@ == seq!['h', 'o', 's', 't'],
        "port"@ == seq!['p', 'o', 'r', 't'],
        "username"@ == seq!['u', 's', 'e', 'r', 'n', 'a', 'm', 'e'],
{
    reveal_strlit("name");
    reveal_strlit("host");
    reveal_strlit("port");
    reveal_strlit("username");
    assert("name"@ =~= seq!['n', 'a', 'm', 'e']);
    assert("host"@ =~= seq!['h', 'o', 's', 't']);
    assert("port"@ =~= seq!['p', 'o', 'r', 't']);
    assert("username"@ =~= seq!['u', 's', 'e', 'r', 'n', 'a', 'm', 'e']);
}

/// The first place is what `find_from` finds.
proof fn lemma_found(s: Seq<char>, p: Seq<char>, from: int, at: int)
    requires
        0 <= from <= at,
        stands_at(s, p, at),
        forall|i: int| from <= i < at ==> !stands_at(s, p, i),
    ensures
        find_from(s, p, from) == Some(at),
    decreases at - from,
{
    if from < at {
        assert(!stands_at(s, p, from));
        lemma_found(s, p, from + 1, at);
    }
}

/// Expanding from a place on is expanding what stands from there on.
proof fn lemma_expanded_tail(vars: ScriptVars, command: Seq<char>, from: int)
    requires
        0 <= from <= command.len(),
    ensures
        vars.expanded_from(command, from) == vars.expanded(command.skip(from)),
    decreases command.len() - from,
{
    lemma_expanded_shift(vars, command, from, 0);
}

proof fn lemma_stands_shift(s: Seq<char>, p: Seq<char>, base: int, i: int)
    requires
        0 <= base <= s.len(),
        0 <= i,
    ensures
        stands_at(s, p, base + i) == stands_at(s.skip(base), p, i),
{
    if i + p.len() <= s.len() - base {
        assert(s.skip(base).subrange(i, i + p.len()) =~= s.subrange(base + i, base + i + p.len()));
    }
}

proof fn lemma_find_shift(s: Seq<char>, p: Seq<char>, base: int, from: int)
    requires
        0 <= base <= s.len(),
        0 <= from,
    ensures
        match find_from(s.skip(base), p, from) {
            Some(i) => find_from(s, p, base + from) == Some(base + i),
            None => find_from(s, p, base + from) is None,
        },
    decreases s.len() + 1 - base - from,
{
    lemma_stands_shift(s, p, base, from);
    if from + p.len() <= s.len() - base && !stands_at(s.skip(base), p, from) {
        lemma_find_shift(s, p, base, from + 1);
    }
}

proof fn lemma_expanded_shift(vars: ScriptVars, command: Seq<char>, base: int, from: int)
    requires
        0 <= base,
        0 <= from,
        base + from <= command.len(),
    ensures
        vars.expanded_from(command, base + from) == vars.expanded_from(command.skip(base), from),
    decreases command.len() - base - from,
{
    let tail = command.skip(base);
    lemma_find_shift(command, opener(), base, from);
    lemma_find_from(tail, opener(), from);
    assert(command.skip(base + from) =~= tail.skip(from));
    if let Some(open) = find_from(tail, opener(), from) {
        assert(command.subrange(base + from, base + open) =~= tail.subrange(from, open));
        lemma_find_shift(command, closer(), base, open + 2);
        lemma_find_from(tail, closer(), open + 2);
        if let Some(close) = find_from(tail, closer(), open + 2) {
            assert(command.subrange(base + open + 2, base + close) =~= tail.subrange(open + 2, close));
            if vars.placeholder_at(tail, open) is Some {
                lemma_expanded_shift(vars, command, base, close + 2);
            }
        }
        if vars.placeholder_at(tail, open) is None {
            assert(vars.placeholder_at(command, base + open) is None);
            lemma_expanded_shift(vars, command, base, open + 2);
        }
    }
}

/// Whether a text neither has nor begins a `{{` that reaches into what follows
/// it.
pub open spec fn is_plain(text: Seq<char>) -> bool {
    forall|i: int| 0 <= i < text.len() ==> #[trigger] text[i] != '{'
}

/// Whether a text has no brace.
pub open spec fn has_no_brace(text: Seq<char>) -> bool {
    forall|i: int| 0 <= i < text.len() ==> #[trigger] text[i] != '{' && text[i] != '}'
}

proof fn lemma_first_marks(before: Seq<char>, key: Seq<char>, after: Seq<char>)
    requires
        is_plain(before),
        has_no_brace(key),
    ensures
        ({
            let command = before + opener() + key + closer() + after;
            let n = before.len() as int;
            let m = n + 2 + key.len();
            &&& find_from(command, opener(), 0) == Some(n)
            &&& find_from(command, closer(), n + 2) == Some(m)
            &&& command.subrange(0, n) == before
            &&& command.subrange(n + 2, m) == key
            &&& command.skip(m + 2) == after
            &&& command.skip(n + 2) == key + closer() + after
        }),
{
    let command = before + opener() + key + closer() + after;
    let n = before.len() as int;
    let m = n + 2 + key.len();
    assert(command.subrange(n, n + 2) =~= opener());
    assert forall|i: int| 0 <= i < n implies !stands_at(command, opener(), i) by {
        assert(command[i] == before[i]);
        if stands_at(command, opener(), i) {
            assert(command.subrange(i, i + 2)[0] == '{');
        }
    }
    lemma_found(command, opener(), 0, n);
    assert(command.subrange(m, m + 2) =~= closer());
    assert forall|i: int| n + 2 <= i < m implies !stands_at(command, closer(), i) by {
        assert(command[i] == key[i - n - 2]);
        if stands_at(command, closer(), i) {
            assert(command.subrange(i, i + 2)[0] == '}');
        }
    }
    lemma_found(command, closer(), n + 2, m);
    assert(command.subrange(0, n) =~= before);
    assert(command.subrange(n + 2, m) =~= key);
    assert(command.skip(m + 2) =~= after);
    assert(command.skip(n + 2) =~= key + closer() + after);
}

/// A known placeholder gives way to its value, with or without spaces round its
/// name, and what stands before and behind it is treated as if it stood alone.
pub proof fn a_known_placeholder_is_replaced(
    vars: ScriptVars,
    before: Seq<char>,
    key: Seq<char>,
    value: Seq<char>,
    after: Seq<char>,
)
    requires
        is_plain(before),
        has_no_brace(key),
        is_value(vars, trimmed(key), value),
    ensures
        vars.expanded(before + seq!['{', '{'] + key + seq!['}', '}'] + after) == before + value + vars.expanded(after),
{
    let command = before + opener() + key + closer() + after;
    lemma_first_marks(before, key, after);
    lemma_keys();
    let n = before.len() as int;
    let m = n + 2 + key.len();
    assert(vars.of(trimmed(key)) == Some(value)) by {
        assert("name"@.len() != "username"@.len());
        assert("name"@[0] != "host"@[0] && "name"@[0] != "port"@[0] && "host"@[0] != "port"@[0]);
    }
    assert(vars.placeholder_at(command, n) == Some((value, m + 2)));
    lemma_expanded_tail(vars, command, m + 2);
}

/// An unknown placeholder is left standing.
pub proof fn an_unknown_placeholder_stays(vars: ScriptVars, before: Seq<char>, key: Seq<char>, after: Seq<char>)
    requires
        is_plain(before),
        has_no_brace(key),
        trimmed(key) != "name"@,
        trimmed(key) != "host"@,
        trimmed(key) != "port"@,
        trimmed(key) != "username"@,
    ensures
        vars.expanded(before + seq!['{', '{'] + key + seq!['}', '}'] + after) == before + seq!['{', '{']
            + vars.expanded(key + seq!['}', '}'] + after),
{
    let command = before + opener() + key + closer() + after;
    lemma_first_marks(before, key, after);
    let n = before.len() as int;
    assert(vars.placeholder_at(command, n) is None);
    lemma_expanded_tail(vars, command, n + 2);
}

/// Expanding a script changes the commands alone, each to its own expansion; the
/// conditions, the times and the order stay.
pub proof fn an_expanded_script_differs_in_its_commands(vars: ScriptVars, script: Script, r: Script, i: int)
    requires
        vars.is_expansion(script, r),
        0 <= i < script.steps@.len(),
    ensures
        r.id == script.id,
        r.name == script.name,
        r.run_on_connect == script.run_on_connect,
        r.steps@.len() == script.steps@.len(),
        r.steps@[i].command@ == vars.expanded(script.steps@[i].command@),
        r.steps@[i].condition == script.steps@[i].condition,
        r.steps@[i].timeout_secs == script.steps@[i].timeout_secs,
{
}

/// The next step of a script is begun with its own command and time, or skipped and
/// recorded as such; behind the last one the run is done.
pub proof fn a_script_runs_step_by_step(run: &mut ScriptRun, script: Script, r: RunAction)
    requires
        old(run).results@.len() <= script.steps@.len(),
        call_ensures(ScriptRun::advance, (run, &script), r),
    ensures
        r is Done <==> old(run).results@.len() == script.steps@.len(),
        r matches RunAction::Start { index, command, timeout_secs } ==> index == old(run).results@.len() && command
            == script.steps@[index as int].command && (script.steps@[index as int].timeout_secs matches Some(t)
            ==> timeout_secs == t) && (script.steps@[index as int].timeout_secs is None ==> timeout_secs == 120)
            && final(run).results@ == old(run).results@,
        r matches RunAction::Skip { index } ==> index == old(run).results@.len() && final(run).results@
            == old(run).results@.push(StepStatus::Skipped),
        old(run).results@.len() < script.steps@.len() && (old(run).results@.len() == 0
            || script.steps@[old(run).results@.len() as int].condition is Always) ==> r is Start,
{
}

/// An outcome is recorded behind those before it and reported under its own place.
pub proof fn an_outcome_is_reported_in_its_place(run: &mut ScriptRun, outcome: StepOutcome, secs: u64, r: RunEvent)
    requires
        old(run).results@.len() <= usize::MAX,
        call_ensures(ScriptRun::record, (run, outcome, secs), r),
    ensures
        final(run).results@.len() == old(run).results@.len() + 1,
        final(run).results@.drop_last() == old(run).results@,
        outcome matches StepOutcome::Finished { exit_code, output } ==> r == (RunEvent::StepFinished {
            index: old(run).results@.len() as usize,
            exit_code,
        }) && final(run).results@.last() == (StepStatus::Ran { exit_code, output }),
        outcome matches StepOutcome::TimedOut { output } ==> r == (RunEvent::StepTimedOut {
            index: old(run).results@.len() as usize,
            seconds: secs,
        }) && final(run).results@.last() == (StepStatus::Ran { exit_code: 124, output }),
        outcome matches StepOutcome::Failed { message } ==> r == (RunEvent::StepError {
            index: old(run).results@.len() as usize,
            message,
        }) && final(run).results@.last() == StepStatus::Skipped,
{
    assert(final(run).results@.drop_last() =~= old(run).results@);
}

} // verus!
