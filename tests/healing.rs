use artix_installer::cmd::{classify, failure_report, package_for, Invocation, Mode, Outcome, SpawnResult};
use artix_installer::error::InstallerError;
use artix_installer::heal::{HealAction, HealEvent, Healer, Runner};

fn exited(code: i32) -> SpawnResult {
    SpawnResult::Exited { code: Some(code), output: None }
}

fn start(dry_run: bool, program: &str, mode: Mode) -> Healer {
    Runner::new(dry_run).start(Invocation::new(program, &["-F32", "/dev/sda1"], mode))
}

#[test]
fn dry_run_only_simulates_and_succeeds() {
    let modes = vec![
        Mode::Interactive,
        Mode::Silent { progress: "p".to_string(), done: "d".to_string() },
        Mode::Capture,
        Mode::Append { path: "/mnt/etc/fstab".to_string() },
        Mode::BestEffort,
    ];
    for mode in modes {
        let mut h = start(true, "mkfs.fat", mode);
        assert_eq!(h.action(), HealAction::Simulate);
        h.handle(HealEvent::Ran(SpawnResult::Missing));
        assert_eq!(h.action(), HealAction::Simulate);
        h.handle(HealEvent::Simulated);
        assert_eq!(h.action(), HealAction::Finish);
        assert!(matches!(h.result, Some(Ok(None))));
    }
}

#[test]
fn decline_yields_not_found_without_install() {
    let mut h = start(false, "mkfs.fat", Mode::Interactive);
    assert_eq!(h.action(), HealAction::Run);
    h.handle(HealEvent::Ran(SpawnResult::Missing));
    assert_eq!(h.action(), HealAction::AskInstall);
    assert_eq!(h.package, "dosfstools");
    h.handle(HealEvent::Consent(false));
    assert_eq!(h.action(), HealAction::Finish);
    match h.result {
        Some(Err(InstallerError::CommandNotFound(p))) => assert_eq!(p, "mkfs.fat"),
        _ => panic!("expected CommandNotFound"),
    }
}

#[test]
fn failed_install_names_the_package_manager() {
    let mut h = start(false, "mkswap", Mode::Capture);
    h.handle(HealEvent::Ran(SpawnResult::Missing));
    h.handle(HealEvent::Consent(true));
    assert_eq!(h.action(), HealAction::Install);
    assert_eq!(h.manager, "pacman");
    h.handle(HealEvent::Installed(exited(1)));
    assert_eq!(h.action(), HealAction::Finish);
    match h.result {
        Some(Err(InstallerError::CommandFailed(p, c))) => {
            assert_eq!(p, "pacman");
            assert_eq!(c, 1);
        }
        _ => panic!("expected CommandFailed"),
    }
}

#[test]
fn install_without_exit_code_reports_minus_one() {
    let mut h = start(false, "mkswap", Mode::Interactive);
    h.handle(HealEvent::Ran(SpawnResult::Missing));
    h.handle(HealEvent::Consent(true));
    h.handle(HealEvent::Installed(SpawnResult::Exited { code: None, output: None }));
    assert!(matches!(h.result, Some(Err(InstallerError::CommandFailed(_, -1)))));
}

#[test]
fn still_unresolvable_after_install_is_not_found_without_retry() {
    let mut h = start(false, "ntpd", Mode::Interactive);
    h.handle(HealEvent::Ran(SpawnResult::Missing));
    h.handle(HealEvent::Consent(true));
    h.handle(HealEvent::Installed(exited(0)));
    assert_eq!(h.action(), HealAction::Probe);
    h.handle(HealEvent::Probed(false));
    assert_eq!(h.action(), HealAction::Finish);
    match h.result {
        Some(Err(InstallerError::CommandNotFound(p))) => assert_eq!(p, "ntpd"),
        _ => panic!("expected CommandNotFound"),
    }
}

#[test]
fn resolvable_after_install_retries_exactly_once() {
    let mut h = start(false, "mkfs.ext4", Mode::Interactive);
    let mut runs = 0;
    let mut second = vec![SpawnResult::Missing, SpawnResult::Missing];
    loop {
        match h.action() {
            HealAction::Run => {
                runs += 1;
                h.handle(HealEvent::Ran(second.remove(0)));
            }
            HealAction::AskInstall => h.handle(HealEvent::Consent(true)),
            HealAction::Install => h.handle(HealEvent::Installed(exited(0))),
            HealAction::Probe => h.handle(HealEvent::Probed(true)),
            HealAction::Simulate => panic!("not a dry run"),
            HealAction::Finish => break,
        }
    }
    assert_eq!(runs, 2);
    assert!(matches!(h.result, Some(Err(InstallerError::CommandNotFound(_)))));
}

#[test]
fn retry_success_returns_captured_text() {
    let mut h = start(false, "lsblk", Mode::Capture);
    h.handle(HealEvent::Ran(SpawnResult::Missing));
    h.handle(HealEvent::Consent(true));
    h.handle(HealEvent::Installed(exited(0)));
    h.handle(HealEvent::Probed(true));
    assert_eq!(h.action(), HealAction::Run);
    h.handle(HealEvent::Ran(SpawnResult::Exited { code: Some(0), output: Some("x".to_string()) }));
    assert!(matches!(&h.result, Some(Ok(Some(t))) if t == "x"));
    h.handle(HealEvent::Ran(SpawnResult::Missing));
    assert_eq!(h.action(), HealAction::Finish);
}

#[test]
fn failure_and_io_errors_are_not_retried() {
    let mut h = start(false, "mount", Mode::Interactive);
    h.handle(HealEvent::Ran(exited(32)));
    assert!(matches!(h.result, Some(Err(InstallerError::CommandFailed(_, 32)))));
    let mut h = start(false, "mount", Mode::Interactive);
    h.handle(HealEvent::Ran(SpawnResult::SpawnError("permission denied".to_string())));
    assert!(matches!(&h.result, Some(Err(InstallerError::Io(m))) if m == "permission denied"));
}

#[test]
fn prompt_failure_is_surfaced() {
    let mut h = start(false, "cfdisk", Mode::Interactive);
    h.handle(HealEvent::Ran(SpawnResult::Missing));
    h.handle(HealEvent::PromptFailed("not a terminal".to_string()));
    assert!(matches!(&h.result, Some(Err(InstallerError::Prompt(m))) if m == "not a terminal"));
}

#[test]
fn best_effort_ignores_failures() {
    let mut h = start(false, "swapoff", Mode::BestEffort);
    h.handle(HealEvent::Ran(SpawnResult::Missing));
    assert_eq!(h.action(), HealAction::Finish);
    assert!(matches!(h.result, Some(Ok(None))));
}

#[test]
fn classification_rules() {
    let p = "mkfs.fat".to_string();
    assert!(matches!(classify(&p, SpawnResult::Missing), Outcome::NotFound(n) if n == "mkfs.fat"));
    assert!(matches!(classify(&p, exited(0)), Outcome::Success(None)));
    assert!(matches!(classify(&p, exited(2)), Outcome::Failed(_, 2)));
    assert!(matches!(
        classify(&p, SpawnResult::Exited { code: None, output: None }),
        Outcome::Failed(_, -1)
    ));
    assert!(matches!(classify(&p, SpawnResult::SpawnError("e".to_string())), Outcome::IoFailure(_)));
}

#[test]
fn dependency_table() {
    assert_eq!(package_for("mkfs.vfat"), "dosfstools");
    assert_eq!(package_for("resize2fs"), "e2fsprogs");
    assert_eq!(package_for("btrfs"), "btrfs-progs");
    assert_eq!(package_for("xfs_repair"), "xfsprogs");
    assert_eq!(package_for("findmnt"), "util-linux");
    assert_eq!(package_for("artix-chroot"), "artools");
    assert_eq!(package_for("rc-update"), "openrc");
    assert_eq!(package_for("ntpq"), "ntp");
    assert_eq!(package_for("grub-install"), "grub-install");
    assert_eq!(package_for(""), "");
}

#[test]
fn dry_run_description() {
    let inv = Invocation::new("fstabgen", &["-U", "/mnt"], Mode::Append { path: "/mnt/etc/fstab".to_string() });
    assert_eq!(inv.describe(), "fstabgen -U /mnt >> /mnt/etc/fstab");
    let inv = Invocation::new("ntpd", &[], Mode::Interactive);
    assert_eq!(inv.describe(), "ntpd");
    assert_eq!(Mode::Interactive.simulated_delay_ms(), 1500);
    assert_eq!(Mode::Capture.simulated_delay_ms(), 200);
    assert_eq!(Mode::BestEffort.simulated_delay_ms(), 100);
}

#[test]
fn failure_report_trims_and_drops_empty_streams() {
    assert_eq!(failure_report("  out \n", "\t"), vec!["out".to_string()]);
    assert_eq!(failure_report("", " err"), vec!["err".to_string()]);
    assert_eq!(failure_report("a", "b\n"), vec!["a".to_string(), "b".to_string()]);
    assert!(failure_report(" ", "").is_empty());
}

#[test]
fn error_messages() {
    assert_eq!(
        InstallerError::CommandFailed("pacman".to_string(), 1).message(),
        "Command 'pacman' failed with exit code 1"
    );
    assert_eq!(
        InstallerError::CommandFailed("mount".to_string(), -1).message(),
        "Command 'mount' failed with exit code -1"
    );
    assert_eq!(
        InstallerError::CommandNotFound("cfdisk".to_string()).message(),
        "Command 'cfdisk' not found — is it installed?"
    );
    assert_eq!(InstallerError::Cancelled.message(), "Installation cancelled by user");
    assert_eq!(InstallerError::NotRoot.message(), "This installer must be run as root (sudo)");
    assert_eq!(InstallerError::Io("boom".to_string()).message(), "I/O error: boom");
    assert_eq!(InstallerError::Prompt("tty".to_string()).message(), "Prompt error: tty");
}
