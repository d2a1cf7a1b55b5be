use deployer_core::orchestrate::{state_has_resources, terraform_args, Orchestrator};

#[test]
fn terraform_args_fixed_lists() {
    assert_eq!(terraform_args("init").unwrap(), vec!["init", "-no-color"]);
    assert_eq!(terraform_args("plan").unwrap(), vec!["plan", "-no-color"]);
    assert_eq!(terraform_args("apply").unwrap(), vec!["apply", "-auto-approve", "-no-color"]);
    assert_eq!(terraform_args("destroy").unwrap(), vec!["destroy", "-auto-approve", "-no-color"]);
}

#[test]
fn terraform_args_unknown_command() {
    let err = terraform_args("fly").unwrap_err();
    assert_eq!(err, "Unknown command: fly");
}

#[test]
fn fresh_status_is_idle() {
    let orch = Orchestrator::new();
    let status = orch.status();
    assert!(!status.running);
    assert!(status.command.is_none());
    assert_eq!(status.output, "");
    assert!(status.success.is_none());
    assert!(!status.can_rollback);
}

#[test]
fn start_resets_status_to_running() {
    let mut orch = Orchestrator::new();
    let args = orch.start("apply", true).unwrap();
    assert_eq!(args, vec!["apply", "-auto-approve", "-no-color"]);
    let status = orch.status();
    assert!(status.running);
    assert_eq!(status.command.as_deref(), Some("terraform apply"));
    assert_eq!(status.output, "");
    assert!(status.success.is_none());
    assert!(status.can_rollback);
}

// Single flight: a second start while one invocation runs is rejected and
// the running status is untouched.
#[test]
fn scenario_single_flight() {
    let mut orch = Orchestrator::new();
    orch.start("init", false).unwrap();
    orch.append_output_line("Initializing...");
    let before = orch.status();

    let second = orch.start("plan", false);
    assert_eq!(second.unwrap_err(), "A deployment is already running");

    let after = orch.status();
    assert!(after.running);
    assert_eq!(after.command, before.command);
    assert_eq!(after.output, before.output);
    assert_eq!(after.success, before.success);
    assert_eq!(after.can_rollback, before.can_rollback);
}

#[test]
fn unknown_command_leaves_status_untouched() {
    let mut orch = Orchestrator::new();
    assert!(orch.start("fly", false).is_err());
    let status = orch.status();
    assert!(!status.running);
    assert!(status.command.is_none());
}

#[test]
fn finish_records_verdict() {
    let mut orch = Orchestrator::new();
    orch.start("apply", false).unwrap();
    orch.append_output_line("done");
    orch.finish(true, true);
    let status = orch.status();
    assert!(!status.running);
    assert_eq!(status.success, Some(true));
    assert!(status.can_rollback);
    assert_eq!(status.output, "done\n");
}

#[test]
fn fail_to_start_replaces_output() {
    let mut orch = Orchestrator::new();
    orch.start("apply", false).unwrap();
    orch.fail_to_start("No such file or directory");
    let status = orch.status();
    assert!(!status.running);
    assert_eq!(status.success, Some(false));
    assert_eq!(status.output, "Failed to start terraform: No such file or directory");
}

#[test]
fn cancel_marks_failure_with_note() {
    let mut orch = Orchestrator::new();
    orch.start("apply", false).unwrap();
    orch.set_process(4242);
    orch.append_output_line("Creating resources...");
    orch.cancel_mark();
    let status = orch.status();
    assert!(!status.running);
    assert_eq!(status.success, Some(false));
    assert!(status.output.ends_with("\n\nDeployment cancelled by user."));
    assert_eq!(orch.process_id(), Some(4242));
}

#[test]
fn reset_returns_to_idle() {
    let mut orch = Orchestrator::new();
    orch.start("apply", false).unwrap();
    orch.append_output_line("x");
    orch.reset();
    let status = orch.status();
    assert!(!status.running);
    assert!(status.command.is_none());
    assert_eq!(status.output, "");
}

#[test]
fn state_has_resources_cases() {
    assert!(!state_has_resources(""));
    assert!(!state_has_resources("{ \"version\": 4, \"serial\": 1 }"));
    assert!(!state_has_resources("{ \"resources\": [] }"));
    let deployed = "{\n  \"version\": 4,\n  \"resources\": [\n    { \"type\": \"aws_instance\", \"name\": \"web\" }\n  ]\n}";
    assert!(state_has_resources(deployed));
}

// Concurrent drain: a child writing ten thousand lines to each stream must
// lose nothing; whatever interleaving the two drains produce, every line of
// both streams ends up in the output with each stream's order preserved.
#[test]
fn scenario_concurrent_drain() {
    let mut orch = Orchestrator::new();
    orch.start("apply", false).unwrap();

    let n: usize = 10_000;
    let mut k: usize = 0;
    while k < n {
        // an arbitrary, uneven interleaving of the two streams
        orch.append_output_line(&format!("out-{}", k));
        if k % 3 == 0 {
            orch.append_output_line(&format!("err-{}", k));
            k += 1;
            continue;
        }
        orch.append_output_line(&format!("err-{}", k));
        k += 1;
    }

    let output = orch.status().output;
    let lines: Vec<&str> = output.lines().collect();
    assert_eq!(lines.len(), 2 * n);

    let outs: Vec<&str> = lines.iter().copied().filter(|l| l.starts_with("out-")).collect();
    let errs: Vec<&str> = lines.iter().copied().filter(|l| l.starts_with("err-")).collect();
    assert_eq!(outs.len(), n);
    assert_eq!(errs.len(), n);
    for i in 0..n {
        assert_eq!(outs[i], format!("out-{}", i));
        assert_eq!(errs[i], format!("err-{}", i));
    }
}

#[test]
fn drain_lines_appends_each_line() {
    let mut orch = Orchestrator::new();
    orch.start("plan", false).unwrap();
    let lines = vec!["alpha".to_string(), "beta".to_string()];
    orch.drain_lines(&lines);
    assert_eq!(orch.status().output, "alpha\nbeta\n");
}
