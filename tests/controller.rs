use artix_installer::config::{Config, KernelVariant};
use artix_installer::controller::{Controller, Facts, StepAction, StepEvent, MOUNT_STEP, STEP_COUNT};
use artix_installer::session::Session;

fn layout() -> Config {
    Config {
        efi_partition: "/dev/sda1".to_string(),
        swap_partition: Some("/dev/sda2".to_string()),
        root_partition: "/dev/sda3".to_string(),
    }
}

fn facts_for(step: u8) -> Facts {
    match step {
        2 => Facts::Disk("/dev/sda".to_string()),
        3 => Facts::Layout(layout()),
        7 => Facts::Kernel(KernelVariant::Lts),
        _ => Facts::Nothing,
    }
}

#[test]
fn fresh_run_executes_every_step_and_saves_after_each() {
    let mut c = Controller::new(None);
    let mut log = Vec::new();
    let mut stored: Option<String> = None;
    loop {
        let a = c.action();
        log.push(a);
        match a {
            StepAction::Execute(i) => c.handle(StepEvent::Succeeded(facts_for(i))),
            StepAction::Save => {
                stored = Some(c.session.save());
                c.handle(StepEvent::Done);
            }
            StepAction::Clear => {
                stored = None;
                c.handle(StepEvent::Done);
            }
            StepAction::Finish => break,
            other => panic!("unexpected {:?}", other),
        }
    }
    let executed: Vec<u8> = log
        .iter()
        .filter_map(|a| if let StepAction::Execute(i) = a { Some(*i) } else { None })
        .collect();
    assert_eq!(executed, (1..=STEP_COUNT).collect::<Vec<u8>>());
    let saves = log.iter().filter(|a| **a == StepAction::Save).count();
    assert_eq!(saves, (STEP_COUNT - 1) as usize);
    assert!(stored.is_none());
}

#[test]
fn three_steps_then_resume_skips_them() {
    // First process: steps 1 to 3 succeed, then the process is interrupted.
    let mut c = Controller::new(None);
    let mut stored: Option<String> = None;
    for _ in 0..6 {
        match c.action() {
            StepAction::Execute(i) => c.handle(StepEvent::Succeeded(facts_for(i))),
            StepAction::Save => {
                stored = Some(c.session.save());
                c.handle(StepEvent::Done);
            }
            other => panic!("unexpected {:?}", other),
        }
    }
    assert_eq!(c.action(), StepAction::Execute(4));
    let text = stored.expect("checkpoint");
    assert_eq!(
        text,
        "step=3\ndisk=/dev/sda\nefi=/dev/sda1\nswap=/dev/sda2\nroot=/dev/sda3\n"
    );

    // Second process: the checkpoint is found and the operator resumes.
    let mut c = Controller::new(Session::load(Some(&text)));
    assert_eq!(c.action(), StepAction::AskResume(3));
    c.handle(StepEvent::Resume(true));
    for i in 1..=3 {
        assert_eq!(c.action(), StepAction::Skip(i));
        c.handle(StepEvent::Done);
    }
    assert_eq!(c.action(), StepAction::Execute(4));
    assert_eq!(c.session.to_config().root_partition, "/dev/sda3");
}

#[test]
fn declining_resume_clears_and_starts_fresh() {
    let saved = Session::load(Some("step=3\ndisk=/dev/sda\n")).expect("record");
    let mut c = Controller::new(Some(saved));
    assert_eq!(c.action(), StepAction::AskResume(3));
    c.handle(StepEvent::Resume(false));
    assert_eq!(c.action(), StepAction::Clear);
    c.handle(StepEvent::Done);
    assert_eq!(c.action(), StepAction::Execute(1));
    assert_eq!(c.session.last_step, 0);
    assert!(c.session.disk.is_none());
}

#[test]
fn resume_reruns_only_the_mount_step() {
    let saved = Session::load(Some("step=6\n")).expect("record");
    let mut c = Controller::new(Some(saved));
    c.handle(StepEvent::Resume(true));
    let mut seen = Vec::new();
    loop {
        let a = c.action();
        seen.push(a);
        match a {
            StepAction::Skip(_) => c.handle(StepEvent::Done),
            StepAction::Execute(7) => break,
            StepAction::Execute(i) => c.handle(StepEvent::Succeeded(facts_for(i))),
            other => panic!("unexpected {:?}", other),
        }
    }
    assert_eq!(
        seen,
        vec![
            StepAction::Skip(1),
            StepAction::Skip(2),
            StepAction::Skip(3),
            StepAction::Execute(MOUNT_STEP),
            StepAction::Skip(5),
            StepAction::Skip(6),
            StepAction::Execute(7),
        ]
    );
    assert_eq!(c.session.last_step, 6);
}

#[test]
fn failure_aborts_and_nothing_follows() {
    let mut c = Controller::new(None);
    c.handle(StepEvent::Succeeded(Facts::Nothing));
    c.handle(StepEvent::Done);
    assert_eq!(c.action(), StepAction::Execute(2));
    c.handle(StepEvent::Failed);
    assert_eq!(c.action(), StepAction::Abort);
    c.handle(StepEvent::Succeeded(Facts::Nothing));
    assert_eq!(c.action(), StepAction::Abort);
    assert_eq!(c.session.last_step, 1);
}

#[test]
fn resume_prompt_failure_aborts() {
    let saved = Session::load(Some("step=2\n")).expect("record");
    let mut c = Controller::new(Some(saved));
    c.handle(StepEvent::Failed);
    assert_eq!(c.action(), StepAction::Abort);
}

#[test]
fn zero_progress_record_is_a_fresh_start() {
    let c = Controller::new(Some(Session::default()));
    assert_eq!(c.action(), StepAction::Execute(1));
}

#[test]
fn unexpected_events_change_nothing() {
    let mut c = Controller::new(None);
    c.handle(StepEvent::Done);
    c.handle(StepEvent::Resume(true));
    assert_eq!(c.action(), StepAction::Execute(1));
    assert_eq!(c.session.last_step, 0);
}
