use ssh_control::config::{Script, ScriptStep, StepCondition, Uuid};
use ssh_control::ssh::channel::{Capture, ChannelEvent};
use ssh_control::ssh::script_runner::{
    should_run, RunAction, RunEvent, ScriptRun, ScriptVars, StepOutcome, StepStatus, STEP_TIMEOUT_SECS,
    TIMEOUT_EXIT_CODE,
};
use ssh_control::ssh::sysinfo::{parse, parse_usage, probe_command, usage_command, Usage};

fn vars() -> ScriptVars {
    ScriptVars { name: "prod-web".into(), host: "example.com".into(), port: 2222, username: "deploy".into() }
}

#[test]
fn every_placeholder_resolves_from_the_entry() {
    assert_eq!(vars().expand("ssh {{username}}@{{host}} -p {{port}}"), "ssh deploy@example.com -p 2222");
    assert_eq!(vars().expand("echo {{name}}"), "echo prod-web");
}

#[test]
fn values_are_substituted_literally_and_never_quoted() {
    let v = ScriptVars { name: "two words".into(), host: "h".into(), port: 22, username: "u".into() };
    assert_eq!(v.expand("echo {{name}}"), "echo two words");
}

#[test]
fn an_unknown_placeholder_is_left_alone() {
    assert_eq!(vars().expand("awk '{{print $1}}'"), "awk '{{print $1}}'");
    assert_eq!(vars().expand("{{nope}} {{host}}"), "{{nope}} example.com");
    assert_eq!(vars().expand("echo {{unclosed"), "echo {{unclosed");
}

#[test]
fn expand_script_touches_commands_only() {
    let script = Script {
        id: Uuid::nil(),
        name: "s".into(),
        run_on_connect: false,
        steps: vec![ScriptStep {
            command: "ping {{host}}".into(),
            condition: StepCondition::OutputContains("{{host}}".into()),
            timeout_secs: Some(5),
        }],
    };
    let expanded = vars().expand_script(&script);
    assert_eq!(expanded.steps[0].command, "ping example.com");
    assert!(matches!(&expanded.steps[0].condition, StepCondition::OutputContains(n) if n == "{{host}}"));
    assert_eq!(expanded.steps[0].timeout_secs, Some(5), "the rest of the step is carried through unchanged");
}

fn ran(exit_code: i32) -> StepStatus {
    StepStatus::Ran { exit_code, output: String::new() }
}

fn ran_with_output(output: &str) -> StepStatus {
    StepStatus::Ran { exit_code: 0, output: output.to_string() }
}

#[test]
fn always_runs_regardless_of_previous() {
    assert!(should_run(&StepCondition::Always, None));
    assert!(should_run(&StepCondition::Always, Some(&ran(0))));
    assert!(should_run(&StepCondition::Always, Some(&ran(1))));
    assert!(should_run(&StepCondition::Always, Some(&StepStatus::Skipped)));
}

#[test]
fn on_success_only_runs_after_zero_exit() {
    assert!(should_run(&StepCondition::OnSuccess, Some(&ran(0))));
    assert!(!should_run(&StepCondition::OnSuccess, Some(&ran(1))));
    assert!(!should_run(&StepCondition::OnSuccess, Some(&StepStatus::Skipped)));
    assert!(!should_run(&StepCondition::OnSuccess, None));
}

#[test]
fn on_failure_only_runs_after_nonzero_exit() {
    assert!(should_run(&StepCondition::OnFailure, Some(&ran(1))));
    assert!(!should_run(&StepCondition::OnFailure, Some(&ran(0))));
    assert!(!should_run(&StepCondition::OnFailure, Some(&StepStatus::Skipped)));
    assert!(!should_run(&StepCondition::OnFailure, None));
}

#[test]
fn output_contains_matches_previous_output() {
    let cond = StepCondition::OutputContains("ready".to_string());
    assert!(should_run(&cond, Some(&ran_with_output("server is ready now"))));
    assert!(!should_run(&cond, Some(&ran_with_output("still booting"))));
    assert!(!should_run(&cond, Some(&StepStatus::Skipped)));
}

#[test]
fn a_timed_out_step_reads_as_a_failure_to_the_next_one() {
    let timed_out = ran(TIMEOUT_EXIT_CODE);
    assert!(should_run(&StepCondition::OnFailure, Some(&timed_out)));
    assert!(!should_run(&StepCondition::OnSuccess, Some(&timed_out)));
}

#[test]
fn skip_cascades_through_conditional_steps_but_not_always() {
    // step0 fails -> step1 (OnSuccess) skipped -> step2 (OnFailure) must also
    // skip, since step1 never actually ran -> step3 (Always) still runs.
    let step0 = ran(1);
    assert!(!should_run(&StepCondition::OnSuccess, Some(&step0)));
    let step1 = StepStatus::Skipped;
    assert!(!should_run(&StepCondition::OnFailure, Some(&step1)));
    let step2 = StepStatus::Skipped;
    assert!(should_run(&StepCondition::Always, Some(&step2)));
}

fn step(command: &str, condition: StepCondition, timeout_secs: Option<u64>) -> ScriptStep {
    ScriptStep { command: command.into(), condition, timeout_secs }
}

#[test]
fn a_run_takes_its_steps_in_order() {
    let script = Script {
        id: Uuid::nil(),
        name: "s".into(),
        run_on_connect: false,
        steps: vec![
            // The first step runs whatever its condition says.
            step("a", StepCondition::OnFailure, None),
            step("b", StepCondition::OnSuccess, Some(7)),
            step("c", StepCondition::OnFailure, None),
            step("d", StepCondition::Always, None),
        ],
    };
    let mut run = ScriptRun::new();
    assert!(
        matches!(run.advance(&script), RunAction::Start { index: 0, command, timeout_secs } if command == "a" && timeout_secs == STEP_TIMEOUT_SECS)
    );
    let event = run.record(StepOutcome::Finished { exit_code: 0, output: "ok".into() }, STEP_TIMEOUT_SECS);
    assert!(matches!(event, RunEvent::StepFinished { index: 0, exit_code: 0 }));
    assert!(
        matches!(run.advance(&script), RunAction::Start { index: 1, command, timeout_secs: 7 } if command == "b")
    );
    let event = run.record(StepOutcome::Failed { message: "gone".into() }, 7);
    assert!(matches!(event, RunEvent::StepError { index: 1, message } if message == "gone"));
    assert!(matches!(run.advance(&script), RunAction::Skip { index: 2 }));
    assert!(matches!(run.advance(&script), RunAction::Start { index: 3, .. }));
    let event = run.record(StepOutcome::TimedOut { output: "half".into() }, 120);
    assert!(matches!(event, RunEvent::StepTimedOut { index: 3, seconds: 120 }));
    assert!(matches!(run.advance(&script), RunAction::Done));
    assert!(matches!(&run.results[3], StepStatus::Ran { exit_code, output } if *exit_code == 124 && output == "half"));
}

#[test]
fn the_end_of_the_output_does_not_end_a_step() {
    let mut capture = Capture::new();
    assert!(!capture.take_step(&ChannelEvent::Data(b"he".to_vec())));
    assert!(!capture.take_step(&ChannelEvent::ExtendedData(vec![0xff])));
    assert!(!capture.take_step(&ChannelEvent::Eof));
    assert!(!capture.take_step(&ChannelEvent::ExitStatus(u32::MAX)));
    assert!(capture.take_step(&ChannelEvent::Close));
    assert!(
        matches!(capture.step_outcome(false), StepOutcome::Finished { exit_code: -1, output } if output == "he\u{fffd}")
    );
    assert!(matches!(capture.step_outcome(true), StepOutcome::TimedOut { output } if output == "he\u{fffd}"));
}

#[test]
fn a_probe_ends_with_its_output() {
    let mut capture = Capture::new();
    assert!(!capture.take_probe(&ChannelEvent::Data(b"x".to_vec())));
    assert!(!capture.take_probe(&ChannelEvent::Other));
    assert!(capture.take_probe(&ChannelEvent::Eof));
    assert_eq!(capture.probe_text(false).unwrap(), "x");
    assert_eq!(
        capture.probe_text(true).unwrap_err().message(),
        "connection failed: timed out fetching system info"
    );
}

const CPU_MODEL: &str = "SSHCTL_CPU_MODEL:";
const CPU_CORES: &str = "SSHCTL_CPU_CORES:";
const MEM_TOTAL: &str = "SSHCTL_MEM_TOTAL:";
const MEM_USED: &str = "SSHCTL_MEM_USED:";
const DISK_TOTAL: &str = "SSHCTL_DISK_TOTAL:";
const DISK_USED: &str = "SSHCTL_DISK_USED:";
const GPU_MODEL: &str = "SSHCTL_GPU_MODEL:";

#[test]
fn parses_well_formed_output() {
    let text = format!(
        "{CPU_MODEL}Intel(R) Core(TM) i7\n{CPU_CORES}8\n{MEM_TOTAL}16000000000\n{MEM_USED}4000000000\n\
         {DISK_TOTAL}500000000000\n{DISK_USED}100000000000\n{GPU_MODEL}NVIDIA GeForce RTX 3080\n"
    );
    let info = parse(&text);
    assert_eq!(info.cpu_model.as_deref(), Some("Intel(R) Core(TM) i7"));
    assert_eq!(info.cpu_cores, Some(8));
    assert_eq!(info.mem_total_bytes, Some(16_000_000_000));
    assert_eq!(info.mem_used_bytes, Some(4_000_000_000));
    assert_eq!(info.disk_total_bytes, Some(500_000_000_000));
    assert_eq!(info.disk_used_bytes, Some(100_000_000_000));
    assert_eq!(info.gpu_model.as_deref(), Some("NVIDIA GeForce RTX 3080"));
    assert_eq!(info.gpus, vec!["NVIDIA GeForce RTX 3080"]);
}

#[test]
fn every_card_is_reported_and_the_first_still_answers_for_the_old_field() {
    let text = format!(
        "{GPU_MODEL}Intel Corporation Arrow Lake-S [Intel Graphics]\n\
         {GPU_MODEL}NVIDIA Corporation GA102 [GeForce RTX 3090]\n\
         {GPU_MODEL}NVIDIA Corporation GA106 [GeForce RTX 3060]\n"
    );
    let info = parse(&text);
    assert_eq!(info.gpus.len(), 3);
    assert_eq!(info.gpus[2], "NVIDIA Corporation GA106 [GeForce RTX 3060]");
    // Whatever reads the old field reads the same card it always did.
    assert_eq!(info.gpu_model.as_deref(), Some("Intel Corporation Arrow Lake-S [Intel Graphics]"));
}

#[test]
fn a_host_without_lspci_reports_no_gpu_rather_than_failing() {
    let info = parse(&format!("{CPU_CORES}4\n"));
    assert!(info.gpus.is_empty());
    assert_eq!(info.gpu_model, None);
    assert_eq!(info.cpu_cores, Some(4));
}

#[test]
fn the_probe_takes_every_card_and_survives_a_domain_prefixed_address() {
    let command = probe_command();
    assert!(!command.contains("head -1"), "taking the first card is the bug");
    assert!(!command.contains("-f3-"), "an lspci address is not a reliable colon count");
}

#[test]
fn a_usage_poll_reads_only_the_two_figures_that_move() {
    let text = format!("{MEM_USED}4000000000\n{DISK_USED}100000000000\n");
    let usage = parse_usage(&text);
    assert_eq!(usage.mem_used_bytes, Some(4_000_000_000));
    assert_eq!(usage.disk_used_bytes, Some(100_000_000_000));
    // The static half is not in the command, so it cannot be in the reply.
    assert!(!usage_command().contains(CPU_MODEL));
    assert!(!usage_command().contains(MEM_TOTAL));
    assert!(!usage_command().contains(GPU_MODEL));
}

#[test]
fn a_blank_field_keeps_the_last_good_reading() {
    let mut usage = Usage { mem_used_bytes: Some(1), disk_used_bytes: Some(2) };
    // `free` answered, `df` did not.
    usage.merge(parse_usage(&format!("{MEM_USED}9\n{DISK_USED}\n")));
    assert_eq!(usage.mem_used_bytes, Some(9));
    assert_eq!(usage.disk_used_bytes, Some(2));
}

#[test]
fn missing_fields_become_none() {
    let text = format!("{CPU_MODEL}\n{CPU_CORES}4\n");
    let info = parse(&text);
    assert_eq!(info.cpu_model, None);
    assert_eq!(info.cpu_cores, Some(4));
    assert_eq!(info.mem_total_bytes, None);
    assert_eq!(info.gpu_model, None);
    assert!(info.gpus.is_empty());
}

#[test]
fn the_probe_is_one_command_line() {
    assert_eq!(
        usage_command(),
        "echo 'SSHCTL_MEM_USED:'$(free -b 2>/dev/null | awk '/^Mem:/{print $3}'); \
         echo 'SSHCTL_DISK_USED:'$(df -B1 --total 2>/dev/null | awk '/^total/{print $3}')"
    );
    assert_eq!(
        probe_command(),
        "echo 'SSHCTL_CPU_MODEL:'$(grep -m1 'model name' /proc/cpuinfo 2>/dev/null | cut -d: -f2 | sed 's/^ *//'); \
         echo 'SSHCTL_CPU_CORES:'$(nproc 2>/dev/null); \
         echo 'SSHCTL_MEM_TOTAL:'$(free -b 2>/dev/null | awk '/^Mem:/{print $2}'); \
         echo 'SSHCTL_MEM_USED:'$(free -b 2>/dev/null | awk '/^Mem:/{print $3}'); \
         echo 'SSHCTL_DISK_TOTAL:'$(df -B1 --total 2>/dev/null | awk '/^total/{print $2}'); \
         echo 'SSHCTL_DISK_USED:'$(df -B1 --total 2>/dev/null | awk '/^total/{print $3}'); \
         lspci 2>/dev/null | grep -Ei 'vga|3d controller|display controller' | sed 's/^[^ ]* [^:]*: //; s/ (rev [^)]*)$//; s/^/SSHCTL_GPU_MODEL:/'"
    );
}
