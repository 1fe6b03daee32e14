use restrict::lifecycle::{attach_verdict, Action, Event, Phase, Run};
use restrict::limits::{MaxValue, SetMemory};
use restrict::outcome::{ExitOutcome, Resource, RunError, FATAL_EXIT_CODE};
use restrict::restrict::{ConfigError, Restrict};
use restrict::trace::Exchange;

fn request(command: &str) -> Restrict {
    Restrict::new()
        .with_shell("/bin/sh".to_string())
        .with_command(command.to_string())
        .with_cgroup_path("restrict-4711".to_string())
}

/// Hands the events to the run one by one and notes each action that an
/// event answered.
fn drive(mut run: Run, events: &[Event]) -> (Run, Vec<Action>) {
    let mut done = Vec::new();
    for event in events {
        if run.accepts(*event) {
            done.push(run.pending());
        }
        run = run.step(*event);
    }
    (run, done)
}

fn count(done: &[Action], action: Action) -> usize {
    done.iter().filter(|a| **a == action).count()
}

fn is_limit(action: &Action) -> bool {
    matches!(action, Action::ApplyMemoryLimit(_) | Action::ApplyCpuWeight(_))
}

fn plan_for(bytes: i64) -> SetMemory {
    SetMemory {
        low: None,
        high: Some(MaxValue::Max),
        min: Some(MaxValue::Value(1)),
        max: Some(MaxValue::Value(bytes)),
    }
}

#[test]
fn run_begins_with_the_probe() {
    let run = request("echo hi").run().unwrap();
    assert_eq!(run.phase(), Phase::Probing);
    assert_eq!(run.pending(), Action::ProbeBackend);
    assert_eq!(run.result(), None);
    assert_eq!(run.exit_status(), None);
    assert!(!run.is_finished());
    assert!(!run.cleanup_failed());
    assert_eq!(run.request().command(), "echo hi");
    assert_eq!(run.request().shell(), "/bin/sh");
    assert_eq!(run.request().cgroup_path(), "restrict-4711");
}

#[test]
fn request_with_a_defect_is_not_run() {
    assert_eq!(Restrict::new().run().unwrap_err(), ConfigError::EmptyShell);
    assert_eq!(
        Restrict::new().with_shell("sh".to_string()).run().unwrap_err(),
        ConfigError::EmptyCommand
    );
    assert_eq!(
        request("true").with_cgroup_path("../escape".to_string()).run().unwrap_err(),
        ConfigError::InvalidScope
    );
    assert_eq!(
        request("true").with_memory_limit(Some(u64::MAX)).run().unwrap_err(),
        ConfigError::MemoryTooLarge
    );
}

#[test]
fn echo_hi_without_limits_exits_with_zero() {
    let run = request("echo hi").run().unwrap();
    let (run, done) = drive(
        run,
        &[
            Event::BackendProbed(true),
            Event::Succeeded,
            Event::Succeeded,
            Event::ChildEnded(ExitOutcome::Exited(0)),
            Event::Succeeded,
        ],
    );
    assert_eq!(
        done,
        vec![
            Action::ProbeBackend,
            Action::CreateScope,
            Action::Spawn,
            Action::Wait,
            Action::DestroyScope
        ]
    );
    assert!(run.is_finished());
    assert_eq!(run.pending(), Action::Finish);
    assert_eq!(run.result(), Some(Ok(ExitOutcome::Exited(0))));
    assert_eq!(run.exit_status(), Some(0));
    assert!(!run.cleanup_failed());
    assert_eq!(run.request().shell(), "/bin/sh");
    assert_eq!(run.request().shell_arguments(), vec!["-c".to_string(), "echo hi".to_string()]);
}

#[test]
fn exit_seven_without_limits_exits_with_seven() {
    let run = request("exit 7").run().unwrap();
    let (run, _) = drive(
        run,
        &[
            Event::BackendProbed(true),
            Event::Succeeded,
            Event::Succeeded,
            Event::ChildEnded(ExitOutcome::Exited(7)),
            Event::Succeeded,
        ],
    );
    assert!(run.is_finished());
    assert_eq!(run.exit_status(), Some(7));
}

#[test]
fn rejected_memory_limit_is_fatal_and_the_group_is_removed() {
    let run = request("true").with_memory_limit(Some(1000)).run().unwrap();
    let (run, done) = drive(run, &[Event::BackendProbed(true), Event::Succeeded, Event::Failed]);
    assert_eq!(
        done,
        vec![Action::ProbeBackend, Action::CreateScope, Action::ApplyMemoryLimit(plan_for(1000))]
    );
    assert_eq!(run.phase(), Phase::Destroying);
    assert_eq!(run.pending(), Action::DestroyScope);
    assert_eq!(run.result(), Some(Err(RunError::LimitRejected(Resource::Memory))));
    let (run, done) = drive(run, &[Event::Succeeded]);
    assert_eq!(done, vec![Action::DestroyScope]);
    assert!(run.is_finished());
    assert_eq!(run.result(), Some(Err(RunError::LimitRejected(Resource::Memory))));
    assert_eq!(run.exit_status(), Some(FATAL_EXIT_CODE));
    assert_ne!(run.exit_status(), Some(0));
}

#[test]
fn rejected_cpu_weight_is_fatal_and_the_group_is_removed() {
    let run = request("true")
        .with_memory_limit(Some(1 << 20))
        .with_cpu_limit(Some(50))
        .run()
        .unwrap();
    let (run, done) = drive(
        run,
        &[
            Event::BackendProbed(true),
            Event::Succeeded,
            Event::Succeeded,
            Event::Failed,
            Event::Succeeded,
        ],
    );
    assert_eq!(
        done,
        vec![
            Action::ProbeBackend,
            Action::CreateScope,
            Action::ApplyMemoryLimit(plan_for(1 << 20)),
            Action::ApplyCpuWeight(50),
            Action::DestroyScope
        ]
    );
    assert!(run.is_finished());
    assert_eq!(run.result(), Some(Err(RunError::LimitRejected(Resource::Cpu))));
    assert_eq!(run.exit_status(), Some(FATAL_EXIT_CODE));
}

#[test]
fn limits_are_set_before_the_child_is_started() {
    let run = request("true")
        .with_memory_limit(Some(100_000_000))
        .with_cpu_limit(Some(200))
        .run()
        .unwrap();
    let (run, done) = drive(
        run,
        &[
            Event::BackendProbed(true),
            Event::Succeeded,
            Event::Succeeded,
            Event::Succeeded,
            Event::Succeeded,
            Event::ChildEnded(ExitOutcome::Exited(0)),
            Event::Succeeded,
        ],
    );
    assert_eq!(
        done,
        vec![
            Action::ProbeBackend,
            Action::CreateScope,
            Action::ApplyMemoryLimit(plan_for(100_000_000)),
            Action::ApplyCpuWeight(200),
            Action::Spawn,
            Action::Wait,
            Action::DestroyScope
        ]
    );
    assert!(run.is_finished());
    assert_eq!(run.exit_status(), Some(0));
}

#[test]
fn cpu_weight_alone() {
    let run = request("true").with_cpu_limit(Some(1)).run().unwrap();
    let (run, done) = drive(run, &[Event::BackendProbed(true), Event::Succeeded, Event::Succeeded]);
    assert_eq!(done, vec![Action::ProbeBackend, Action::CreateScope, Action::ApplyCpuWeight(1)]);
    assert_eq!(run.pending(), Action::Spawn);
}

#[test]
fn memory_ceiling_alone() {
    let run = request("true").with_memory_limit(Some(0)).run().unwrap();
    let (run, done) = drive(run, &[Event::BackendProbed(true), Event::Succeeded, Event::Succeeded]);
    assert_eq!(
        done,
        vec![Action::ProbeBackend, Action::CreateScope, Action::ApplyMemoryLimit(plan_for(0))]
    );
    assert_eq!(run.pending(), Action::Spawn);
}

#[test]
fn no_limits_asked_for_means_none_are_set() {
    let scripts: [&[Event]; 4] = [
        &[
            Event::BackendProbed(true),
            Event::Succeeded,
            Event::Succeeded,
            Event::ChildEnded(ExitOutcome::Exited(0)),
            Event::Succeeded,
        ],
        &[Event::BackendProbed(true), Event::Succeeded, Event::Failed, Event::Failed],
        &[
            Event::BackendProbed(true),
            Event::Succeeded,
            Event::Succeeded,
            Event::Failed,
            Event::Succeeded,
        ],
        &[Event::BackendProbed(true), Event::Failed],
    ];
    for script in scripts {
        let (run, done) = drive(request("true").run().unwrap(), script);
        assert!(run.is_finished());
        assert_eq!(done.iter().filter(|a| is_limit(a)).count(), 0);
    }
}

#[test]
fn unsupported_backend_means_no_child() {
    let run = request("true").with_memory_limit(Some(5)).with_cpu_limit(Some(5)).run().unwrap();
    let (run, done) = drive(
        run,
        &[
            Event::BackendProbed(false),
            Event::Succeeded,
            Event::Succeeded,
            Event::Succeeded,
            Event::ChildEnded(ExitOutcome::Exited(0)),
            Event::Succeeded,
        ],
    );
    assert_eq!(done, vec![Action::ProbeBackend]);
    assert_eq!(count(&done, Action::Spawn), 0);
    assert_eq!(count(&done, Action::CreateScope), 0);
    assert_eq!(count(&done, Action::DestroyScope), 0);
    assert!(run.is_finished());
    assert_eq!(run.result(), Some(Err(RunError::BackendUnavailable)));
    assert_eq!(run.exit_status(), Some(FATAL_EXIT_CODE));
}

#[test]
fn group_that_cannot_be_created_is_not_removed() {
    let (run, done) =
        drive(request("true").run().unwrap(), &[Event::BackendProbed(true), Event::Failed]);
    assert_eq!(done, vec![Action::ProbeBackend, Action::CreateScope]);
    assert!(run.is_finished());
    assert_eq!(run.result(), Some(Err(RunError::CreateFailed)));
    assert_eq!(run.exit_status(), Some(FATAL_EXIT_CODE));
}

#[test]
fn child_that_cannot_be_started_is_fatal_and_the_group_is_removed() {
    let (run, done) = drive(
        request("true").run().unwrap(),
        &[Event::BackendProbed(true), Event::Succeeded, Event::Failed, Event::Succeeded],
    );
    assert_eq!(
        done,
        vec![Action::ProbeBackend, Action::CreateScope, Action::Spawn, Action::DestroyScope]
    );
    assert!(run.is_finished());
    assert_eq!(run.result(), Some(Err(RunError::SpawnFailed)));
    assert_eq!(run.exit_status(), Some(FATAL_EXIT_CODE));
}

#[test]
fn wait_that_fails_is_fatal_and_the_group_is_removed() {
    let (run, done) = drive(
        request("true").run().unwrap(),
        &[
            Event::BackendProbed(true),
            Event::Succeeded,
            Event::Succeeded,
            Event::Failed,
            Event::Succeeded,
        ],
    );
    assert_eq!(
        done,
        vec![
            Action::ProbeBackend,
            Action::CreateScope,
            Action::Spawn,
            Action::Wait,
            Action::DestroyScope
        ]
    );
    assert!(run.is_finished());
    assert_eq!(run.result(), Some(Err(RunError::WaitFailed)));
    assert_eq!(run.exit_status(), Some(FATAL_EXIT_CODE));
}

/// Every way in which the steps of a run with both limits can go: one
/// answer for each action, in the order probe, create, memory, CPU, spawn,
/// wait, remove.
fn every_script() -> Vec<Vec<Event>> {
    let ended = Event::ChildEnded(ExitOutcome::Exited(3));
    let steps = [
        vec![Event::BackendProbed(true), Event::BackendProbed(false)],
        vec![Event::Succeeded, Event::Failed],
        vec![Event::Succeeded, Event::Failed],
        vec![Event::Succeeded, Event::Failed],
        vec![Event::Succeeded, Event::Failed],
        vec![ended, Event::Failed],
        vec![Event::Succeeded, Event::Failed],
    ];
    let mut scripts: Vec<Vec<Event>> = vec![Vec::new()];
    for step in steps.iter() {
        let mut longer = Vec::new();
        for script in scripts.iter() {
            for event in step.iter() {
                let mut s = script.clone();
                s.push(*event);
                longer.push(s);
            }
        }
        scripts = longer;
    }
    scripts
}

#[test]
fn group_is_removed_once_whichever_step_fails() {
    for script in every_script() {
        let run = request("true")
            .with_memory_limit(Some(4096))
            .with_cpu_limit(Some(10))
            .run()
            .unwrap();
        let mut run = run;
        let mut done: Vec<(Action, Event)> = Vec::new();
        while !run.is_finished() {
            let event = match run.pending() {
                Action::ProbeBackend => script[0],
                Action::CreateScope => script[1],
                Action::ApplyMemoryLimit(_) => script[2],
                Action::ApplyCpuWeight(_) => script[3],
                Action::Spawn => script[4],
                Action::Wait => script[5],
                Action::DestroyScope => script[6],
                Action::Finish => unreachable!(),
            };
            assert!(run.accepts(event));
            done.push((run.pending(), event));
            run = run.step(event);
        }
        let created = done.contains(&(Action::CreateScope, Event::Succeeded));
        let removals = done.iter().filter(|(a, _)| *a == Action::DestroyScope).count();
        assert_eq!(removals, if created { 1 } else { 0 }, "{:?}", done);
        if removals == 1 {
            assert_eq!(done.last().unwrap().0, Action::DestroyScope);
        }
        let spawn = done.iter().position(|(a, _)| *a == Action::Spawn);
        let create = done.iter().position(|x| *x == (Action::CreateScope, Event::Succeeded));
        let wait = done.iter().position(|(a, _)| *a == Action::Wait);
        let remove = done.iter().position(|(a, _)| *a == Action::DestroyScope);
        if let Some(s) = spawn {
            assert!(create.unwrap() < s);
            let memory = done
                .iter()
                .position(|x| *x == (Action::ApplyMemoryLimit(plan_for(4096)), Event::Succeeded));
            let cpu =
                done.iter().position(|x| *x == (Action::ApplyCpuWeight(10), Event::Succeeded));
            assert!(memory.unwrap() < s);
            assert!(cpu.unwrap() < s);
            if done[s].1 == Event::Succeeded {
                assert!(s < wait.unwrap());
                assert!(wait.unwrap() < remove.unwrap());
            } else {
                assert_eq!(wait, None);
            }
        }
        for action in [Action::ProbeBackend, Action::CreateScope, Action::Spawn, Action::Wait] {
            assert!(done.iter().filter(|(a, _)| *a == action).count() <= 1);
        }
        assert!(run.result().is_some());
    }
}

#[test]
fn child_code_is_the_exit_status() {
    for code in 0..=255 {
        for removed in [Event::Succeeded, Event::Failed] {
            let (run, _) = drive(
                request("exit").with_cpu_limit(Some(2)).run().unwrap(),
                &[
                    Event::BackendProbed(true),
                    Event::Succeeded,
                    Event::Succeeded,
                    Event::Succeeded,
                    Event::ChildEnded(ExitOutcome::Exited(code)),
                    removed,
                ],
            );
            assert!(run.is_finished());
            assert_eq!(run.result(), Some(Ok(ExitOutcome::Exited(code))));
            assert_eq!(run.exit_status(), Some(code));
        }
    }
}

#[test]
fn child_ended_by_a_signal_has_no_exit_status() {
    let (run, _) = drive(
        request("kill -9 $$").run().unwrap(),
        &[
            Event::BackendProbed(true),
            Event::Succeeded,
            Event::Succeeded,
            Event::ChildEnded(ExitOutcome::from_code(None)),
            Event::Succeeded,
        ],
    );
    assert!(run.is_finished());
    assert_eq!(run.result(), Some(Ok(ExitOutcome::Signaled)));
    assert_eq!(run.exit_status(), None);
    for code in 0..=255 {
        assert_ne!(run.result(), Some(Ok(ExitOutcome::Exited(code))));
    }
}

#[test]
fn child_that_cannot_join_the_group_runs_all_the_same() {
    let failed = attach_verdict(false);
    assert!(failed.proceed);
    assert!(failed.report);
    let joined = attach_verdict(true);
    assert!(joined.proceed);
    assert!(!joined.report);

    let (run, done) = drive(
        request("exit 5").run().unwrap(),
        &[
            Event::BackendProbed(true),
            Event::Succeeded,
            Event::Succeeded,
            Event::ChildEnded(ExitOutcome::Exited(5)),
            Event::Succeeded,
        ],
    );
    assert_eq!(count(&done, Action::Wait), 1);
    assert_eq!(run.exit_status(), Some(5));
}

#[test]
fn group_that_cannot_be_removed_does_not_change_the_result() {
    let script = [
        Event::BackendProbed(true),
        Event::Succeeded,
        Event::Succeeded,
        Event::ChildEnded(ExitOutcome::Exited(0)),
    ];
    let (run, _) = drive(request("true").run().unwrap(), &script);
    assert_eq!(run.phase(), Phase::Destroying);
    let lost = run.step(Event::Failed);
    assert!(lost.is_finished());
    assert!(lost.cleanup_failed());
    assert_eq!(lost.result(), Some(Ok(ExitOutcome::Exited(0))));
    assert_eq!(lost.exit_status(), Some(0));

    let (run, _) = drive(request("true").run().unwrap(), &script);
    let kept = run.step(Event::Succeeded);
    assert!(kept.is_finished());
    assert!(!kept.cleanup_failed());
    assert_eq!(kept.exit_status(), lost.exit_status());
}

#[test]
fn event_that_answers_nothing_changes_nothing() {
    let run = request("true").run().unwrap();
    assert!(!run.accepts(Event::Succeeded));
    assert!(!run.accepts(Event::Failed));
    assert!(!run.accepts(Event::ChildEnded(ExitOutcome::Exited(0))));
    assert!(run.accepts(Event::BackendProbed(true)));
    assert!(run.accepts(Event::BackendProbed(false)));
    let run = run.step(Event::Succeeded).step(Event::ChildEnded(ExitOutcome::Signaled));
    assert_eq!(run.phase(), Phase::Probing);
    assert_eq!(run.result(), None);

    let (run, _) =
        drive(run, &[Event::BackendProbed(true), Event::Succeeded, Event::Succeeded]);
    assert_eq!(run.phase(), Phase::Waiting);
    assert!(!run.accepts(Event::Succeeded));
    assert!(!run.accepts(Event::BackendProbed(true)));
    assert!(run.accepts(Event::Failed));
    let run = run.step(Event::Succeeded).step(Event::BackendProbed(false));
    assert_eq!(run.phase(), Phase::Waiting);
    assert_eq!(run.pending(), Action::Wait);

    let (run, _) = drive(run, &[Event::ChildEnded(ExitOutcome::Exited(1)), Event::Succeeded]);
    assert!(run.is_finished());
    for event in [
        Event::BackendProbed(true),
        Event::Succeeded,
        Event::Failed,
        Event::ChildEnded(ExitOutcome::Exited(9)),
    ] {
        assert!(!run.accepts(event));
    }
    let run = run.step(Event::Failed).step(Event::ChildEnded(ExitOutcome::Exited(9)));
    assert!(run.is_finished());
    assert!(!run.cleanup_failed());
    assert_eq!(run.exit_status(), Some(1));
}

#[test]
fn group_used_twice_gets_the_limits_of_the_later_run() {
    let script = [
        Event::BackendProbed(true),
        Event::Succeeded,
        Event::Succeeded,
        Event::Succeeded,
        Event::ChildEnded(ExitOutcome::Exited(0)),
        Event::Succeeded,
    ];
    let first = request("true")
        .with_cgroup_path("shared".to_string())
        .with_memory_limit(Some(1_000_000))
        .run()
        .unwrap();
    let (first, first_done) = drive(first, &script);
    assert!(first.is_finished());
    assert_eq!(first.exit_status(), Some(0));
    assert!(first_done.contains(&Action::ApplyMemoryLimit(plan_for(1_000_000))));

    let second = request("true")
        .with_cgroup_path("shared".to_string())
        .with_memory_limit(Some(2_000_000))
        .run()
        .unwrap();
    assert_eq!(second.request().cgroup_path(), first.request().cgroup_path());
    let (second, second_done) = drive(second, &script);
    assert!(second.is_finished());
    assert_eq!(second.exit_status(), Some(0));
    assert_eq!(
        second_done.iter().filter(|a| is_limit(a)).collect::<Vec<_>>(),
        vec![&Action::ApplyMemoryLimit(plan_for(2_000_000))]
    );
}

#[test]
fn replay_tells_what_was_done() {
    let run = request("exit 7").with_cpu_limit(Some(100)).run().unwrap();
    let (run, exchanges) = run.replay(&vec![
        Event::Succeeded,
        Event::BackendProbed(true),
        Event::Succeeded,
        Event::ChildEnded(ExitOutcome::Exited(1)),
        Event::Succeeded,
        Event::Succeeded,
        Event::BackendProbed(true),
        Event::ChildEnded(ExitOutcome::Exited(7)),
        Event::Failed,
        Event::Succeeded,
    ]);
    assert_eq!(
        exchanges,
        vec![
            Exchange { action: Action::ProbeBackend, event: Event::BackendProbed(true) },
            Exchange { action: Action::CreateScope, event: Event::Succeeded },
            Exchange { action: Action::ApplyCpuWeight(100), event: Event::Succeeded },
            Exchange { action: Action::Spawn, event: Event::Succeeded },
            Exchange { action: Action::Wait, event: Event::ChildEnded(ExitOutcome::Exited(7)) },
            Exchange { action: Action::DestroyScope, event: Event::Failed },
        ]
    );
    assert!(run.is_finished());
    assert!(run.cleanup_failed());
    assert_eq!(run.exit_status(), Some(7));
}

#[test]
fn replay_of_nothing_does_nothing() {
    let (run, exchanges) = request("true").run().unwrap().replay(&Vec::new());
    assert_eq!(exchanges, Vec::new());
    assert_eq!(run.phase(), Phase::Probing);
}

#[test]
fn replay_and_single_steps_agree() {
    for script in every_script() {
        let stepped = request("true").with_memory_limit(Some(1)).with_cpu_limit(Some(1));
        let (stepped, done) = drive(stepped.run().unwrap(), &script);
        let replayed = request("true").with_memory_limit(Some(1)).with_cpu_limit(Some(1));
        let (replayed, exchanges) = replayed.run().unwrap().replay(&script);
        assert_eq!(exchanges.iter().map(|x| x.action).collect::<Vec<_>>(), done);
        assert_eq!(replayed.phase(), stepped.phase());
        assert_eq!(replayed.result(), stepped.result());
        assert_eq!(replayed.cleanup_failed(), stepped.cleanup_failed());
        assert!(exchanges.len() <= 7);
    }
}
