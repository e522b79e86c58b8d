//! The command runner's decisions: dry-run simulation, and recovery from a
//! missing executable by installing its package and retrying exactly once.
//!
//! A `Healer` is driven from outside: `action` names what to do next, and the
//! caller performs it and reports what happened through `handle`.
use vstd::prelude::*;
use crate::cmd::{
    classify, classify_spec, outcome_result, package_for, package_of, Invocation, Mode,
    Outcome, SpawnResult,
};
use crate::error::InstallerError;

verus! {

/// The package manager that installs missing executables.
pub const PACKAGE_MANAGER: &'static str = "pacman";

/// Process-wide settings of the command runner, fixed at startup.
pub struct Runner {
    /// Whether invocations are simulated instead of run.
    pub dry_run: bool,
}

impl Runner {
    pub fn new(dry_run: bool) -> (r: Runner)
        ensures
            r.dry_run == dry_run,
    {
        Runner { dry_run }
    }

    /// Starts the run of `inv`.
    pub fn start(&self, inv: Invocation) -> (h: Healer)
        ensures
            h == initial(self.dry_run, inv, h.package, h.manager),
            h.package@ == package_of(inv.program@),
            h.manager@ == PACKAGE_MANAGER@,
    {
        let package = package_for(inv.program.as_str());
        let manager = String::from_str(PACKAGE_MANAGER);
        Healer {
            phase: if self.dry_run { Phase::Simulate } else { Phase::First },
            inv,
            package,
            manager,
            attempts: Ghost(0),
            installs: Ghost(0),
            result: None,
        }
    }
}

/// Where a run stands.
#[derive(Debug, Clone, Copy, PartialEq, Eq, Structural)]
pub enum Phase {
    /// Dry run: waiting for the simulation to be shown.
    Simulate,
    /// Waiting for the first attempt.
    First,
    /// The program was missing: waiting for the operator's consent to install.
    Consent,
    /// Waiting for the package manager.
    Install,
    /// Waiting for the check that the program is now on the search path.
    Probe,
    /// Waiting for the single retry.
    Retry,
    /// The result is known.
    Finished,
}

/// What the caller does next.
#[derive(Debug, Clone, Copy, PartialEq, Eq, Structural)]
pub enum HealAction {
    /// Show what would run and wait the simulated delay; no process, no file.
    Simulate,
    /// Run the invocation.
    Run,
    /// Ask the operator whether to install the package.
    AskInstall,
    /// Run the package manager on the package.
    Install,
    /// Check whether the program can now be found.
    Probe,
    /// Stop: the result is ready.
    Finish,
}

/// What the caller reports back.
#[derive(Debug)]
pub enum HealEvent {
    Simulated,
    Ran(SpawnResult),
    Consent(bool),
    PromptFailed(String),
    Installed(SpawnResult),
    Probed(bool),
}

/// A run of one invocation under the self-healing protocol.
pub struct Healer {
    pub inv: Invocation,
    pub package: String,
    pub manager: String,
    pub phase: Phase,
    /// Attempts at the invocation so far.
    pub attempts: Ghost<nat>,
    /// Runs of the package manager so far.
    pub installs: Ghost<nat>,
    pub result: Option<Result<Option<String>, InstallerError>>,
}

/// The state before anything is done.
pub open spec fn initial(dry_run: bool, inv: Invocation, package: String, manager: String) -> Healer {
    Healer {
        inv,
        package,
        manager,
        phase: if dry_run { Phase::Simulate } else { Phase::First },
        attempts: Ghost(0),
        installs: Ghost(0),
        result: None,
    }
}

/// The action that a state asks for.
pub open spec fn action_of(h: Healer) -> HealAction {
    match h.phase {
        Phase::Simulate => HealAction::Simulate,
        Phase::First => HealAction::Run,
        Phase::Consent => HealAction::AskInstall,
        Phase::Install => HealAction::Install,
        Phase::Probe => HealAction::Probe,
        Phase::Retry => HealAction::Run,
        Phase::Finished => HealAction::Finish,
    }
}

pub open spec fn finish(h: Healer, r: Result<Option<String>, InstallerError>) -> Healer {
    Healer { phase: Phase::Finished, result: Some(r), ..h }
}

/// The state after event `e`; an event that the state does not wait for
/// changes nothing.
pub open spec fn next(h: Healer, e: HealEvent) -> Healer {
    match (h.phase, e) {
        (Phase::Simulate, HealEvent::Simulated) => finish(h, Ok(None)),
        (Phase::First, HealEvent::Ran(raw)) => {
            let h1 = Healer { attempts: Ghost(h.attempts@ + 1), ..h };
            let o = classify_spec(h.inv.program, raw);
            if h.inv.mode is BestEffort {
                finish(h1, Ok(None))
            } else if o is NotFound {
                Healer { phase: Phase::Consent, ..h1 }
            } else {
                finish(h1, outcome_result(o))
            }
        },
        (Phase::Consent, HealEvent::Consent(yes)) => {
            if yes {
                Healer { phase: Phase::Install, ..h }
            } else {
                finish(h, Err(InstallerError::CommandNotFound(h.inv.program)))
            }
        },
        (Phase::Consent, HealEvent::PromptFailed(cause)) => finish(
            h,
            Err(InstallerError::Prompt(cause)),
        ),
        (Phase::Install, HealEvent::Installed(raw)) => {
            let h1 = Healer { installs: Ghost(h.installs@ + 1), ..h };
            let o = classify_spec(h.manager, raw);
            if o is Success {
                Healer { phase: Phase::Probe, ..h1 }
            } else {
                finish(h1, outcome_result(o))
            }
        },
        (Phase::Probe, HealEvent::Probed(found)) => {
            if found {
                Healer { phase: Phase::Retry, ..h }
            } else {
                finish(h, Err(InstallerError::CommandNotFound(h.inv.program)))
            }
        },
        (Phase::Retry, HealEvent::Ran(raw)) => finish(
            Healer { attempts: Ghost(h.attempts@ + 1), ..h },
            outcome_result(classify_spec(h.inv.program, raw)),
        ),
        _ => h,
    }
}

/// How far a run can have gone: at most two attempts and one installation,
/// and the counts that each phase implies.
pub open spec fn bounded(h: Healer) -> bool {
    match h.phase {
        Phase::Simulate | Phase::First => h.attempts@ == 0 && h.installs@ == 0,
        Phase::Consent | Phase::Install => h.attempts@ == 1 && h.installs@ == 0,
        Phase::Probe | Phase::Retry => h.attempts@ == 1 && h.installs@ == 1,
        Phase::Finished => h.attempts@ <= 2 && h.installs@ <= 1,
    }
}

/// The state after the events `evs`, in order.
pub open spec fn replay(h: Healer, evs: Seq<HealEvent>) -> Healer
    decreases evs.len(),
{
    if evs.len() == 0 {
        h
    } else {
        replay(next(h, evs[0]), evs.drop_first())
    }
}

/// Every event keeps a run within its bounds.
pub proof fn lemma_next_bounded(h: Healer, e: HealEvent)
    requires
        bounded(h),
    ensures
        bounded(next(h, e)),
{
}

/// Whatever is reported, a run never makes more than two attempts and one
/// installation.
pub proof fn lemma_bounded(h: Healer, evs: Seq<HealEvent>)
    requires
        bounded(h),
    ensures
        bounded(replay(h, evs)),
        replay(h, evs).attempts@ <= 2,
        replay(h, evs).installs@ <= 1,
    decreases evs.len(),
{
    if evs.len() > 0 {
        lemma_next_bounded(h, evs[0]);
        lemma_bounded(next(h, evs[0]), evs.drop_first());
    }
}

/// Every attempt, the retry included, runs the identical invocation.
pub proof fn lemma_same_invocation(h: Healer, evs: Seq<HealEvent>)
    ensures
        replay(h, evs).inv == h.inv,
        replay(h, evs).package == h.package,
    decreases evs.len(),
{
    if evs.len() > 0 {
        lemma_same_invocation(next(h, evs[0]), evs.drop_first());
    }
}

/// A finished run stays as it is, whatever is reported afterwards.
pub proof fn lemma_finished_stays(h: Healer, evs: Seq<HealEvent>)
    requires
        h.phase == Phase::Finished,
    ensures
        replay(h, evs) == h,
    decreases evs.len(),
{
    if evs.len() > 0 {
        lemma_finished_stays(next(h, evs[0]), evs.drop_first());
    }
}

spec fn simulating(h: Healer) -> bool {
    &&& h.attempts@ == 0
    &&& h.installs@ == 0
    &&& (h.phase == Phase::Simulate || (h.phase == Phase::Finished && h.result == Some(
        Ok::<Option<String>, InstallerError>(None),
    )))
}

proof fn lemma_simulating(h: Healer, evs: Seq<HealEvent>)
    requires
        simulating(h),
    ensures
        simulating(replay(h, evs)),
    decreases evs.len(),
{
    if evs.len() > 0 {
        lemma_simulating(next(h, evs[0]), evs.drop_first());
    }
}

/// Dry run: for every invocation and whatever is reported, the run only ever
/// asks to simulate or to finish, so no process is spawned and no file is
/// opened, and once finished it reports success.
pub proof fn lemma_dry_run(inv: Invocation, package: String, manager: String, evs: Seq<HealEvent>)
    ensures
        ({
            let h = replay(initial(true, inv, package, manager), evs);
            &&& action_of(h) == HealAction::Simulate || action_of(h) == HealAction::Finish
            &&& h.attempts@ == 0
            &&& h.installs@ == 0
            &&& h.phase == Phase::Finished ==> h.result == Some(
                Ok::<Option<String>, InstallerError>(None),
            )
        }),
{
    lemma_simulating(initial(true, inv, package, manager), evs);
}

/// Missing program, install declined: the run asks once, installs nothing and
/// fails with `CommandNotFound` for the program.
pub proof fn lemma_decline(inv: Invocation, package: String, manager: String)
    requires
        !(inv.mode is BestEffort),
    ensures
        ({
            let h0 = initial(false, inv, package, manager);
            let h1 = next(h0, HealEvent::Ran(SpawnResult::Missing));
            let h2 = next(h1, HealEvent::Consent(false));
            &&& action_of(h0) == HealAction::Run
            &&& action_of(h1) == HealAction::AskInstall
            &&& action_of(h2) == HealAction::Finish
            &&& h2.installs@ == 0
            &&& h2.result == Some(
                Err::<Option<String>, InstallerError>(InstallerError::CommandNotFound(inv.program)),
            )
        }),
{
}

/// Missing program, install accepted, package manager exits nonzero: the run
/// fails with `CommandFailed` naming the package manager and its exit code,
/// never with `CommandNotFound`.
pub proof fn lemma_install_fails(
    inv: Invocation,
    package: String,
    manager: String,
    code: Option<i32>,
    output: Option<String>,
)
    requires
        !(inv.mode is BestEffort),
        code != Some(0i32),
    ensures
        ({
            let h1 = next(initial(false, inv, package, manager), HealEvent::Ran(SpawnResult::Missing));
            let h2 = next(h1, HealEvent::Consent(true));
            let h3 = next(h2, HealEvent::Installed(SpawnResult::Exited { code, output }));
            &&& action_of(h2) == HealAction::Install
            &&& action_of(h3) == HealAction::Finish
            &&& h3.attempts@ == 1
            &&& h3.result == Some(
                Err::<Option<String>, InstallerError>(
                    InstallerError::CommandFailed(
                        manager,
                        match code {
                            Some(c) => c,
                            None => -1i32,
                        },
                    ),
                ),
            )
            &&& !(h3.result matches Some(Err(InstallerError::CommandNotFound(_))))
        }),
{
}

/// Missing program, install accepted and reported successful, program still
/// not found: the run fails with `CommandNotFound` and never retries.
pub proof fn lemma_still_missing(
    inv: Invocation,
    package: String,
    manager: String,
    output: Option<String>,
)
    requires
        !(inv.mode is BestEffort),
    ensures
        ({
            let h1 = next(initial(false, inv, package, manager), HealEvent::Ran(SpawnResult::Missing));
            let h2 = next(h1, HealEvent::Consent(true));
            let h3 = next(h2, HealEvent::Installed(SpawnResult::Exited { code: Some(0i32), output }));
            let h4 = next(h3, HealEvent::Probed(false));
            &&& action_of(h3) == HealAction::Probe
            &&& action_of(h4) == HealAction::Finish
            &&& h4.attempts@ == 1
            &&& h4.result == Some(
                Err::<Option<String>, InstallerError>(InstallerError::CommandNotFound(inv.program)),
            )
        }),
{
}

/// Missing program, installed, found: the invocation runs a second time, and
/// whatever that attempt gives is the result, with no further recovery.
pub proof fn lemma_retry_once(
    inv: Invocation,
    package: String,
    manager: String,
    output: Option<String>,
    second: SpawnResult,
    later: Seq<HealEvent>,
)
    requires
        !(inv.mode is BestEffort),
    ensures
        ({
            let h1 = next(initial(false, inv, package, manager), HealEvent::Ran(SpawnResult::Missing));
            let h2 = next(h1, HealEvent::Consent(true));
            let h3 = next(h2, HealEvent::Installed(SpawnResult::Exited { code: Some(0i32), output }));
            let h4 = next(h3, HealEvent::Probed(true));
            let h5 = next(h4, HealEvent::Ran(second));
            &&& action_of(h4) == HealAction::Run
            &&& action_of(h5) == HealAction::Finish
            &&& h5.attempts@ == 2
            &&& h5.result == Some(outcome_result(classify_spec(inv.program, second)))
            &&& replay(h5, later) == h5
        }),
{
    let h1 = next(initial(false, inv, package, manager), HealEvent::Ran(SpawnResult::Missing));
    let h2 = next(h1, HealEvent::Consent(true));
    let h3 = next(h2, HealEvent::Installed(SpawnResult::Exited { code: Some(0i32), output }));
    let h4 = next(h3, HealEvent::Probed(true));
    let h5 = next(h4, HealEvent::Ran(second));
    lemma_finished_stays(h5, later);
}

impl Healer {
    /// What to do next.
    pub fn action(&self) -> (r: HealAction)
        ensures
            r == action_of(*self),
    {
        match self.phase {
            Phase::Simulate => HealAction::Simulate,
            Phase::First => HealAction::Run,
            Phase::Consent => HealAction::AskInstall,
            Phase::Install => HealAction::Install,
            Phase::Probe => HealAction::Probe,
            Phase::Retry => HealAction::Run,
            Phase::Finished => HealAction::Finish,
        }
    }

    /// Takes in what happened.
    pub fn handle(&mut self, e: HealEvent)
        ensures
            *final(self) == next(*old(self), e),
    {
        match (self.phase, e) {
            (Phase::Simulate, HealEvent::Simulated) => {
                self.phase = Phase::Finished;
                self.result = Some(Ok(None));
            },
            (Phase::First, HealEvent::Ran(raw)) => {
                self.attempts = Ghost(self.attempts@ + 1);
                let o = classify(&self.inv.program, raw);
                if matches!(self.inv.mode, Mode::BestEffort) {
                    self.phase = Phase::Finished;
                    self.result = Some(Ok(None));
                } else if matches!(o, Outcome::NotFound(_)) {
                    self.phase = Phase::Consent;
                } else {
                    self.phase = Phase::Finished;
                    self.result = Some(o.into_result());
                }
            },
            (Phase::Consent, HealEvent::Consent(yes)) => {
                if yes {
                    self.phase = Phase::Install;
                } else {
                    self.phase = Phase::Finished;
                    self.result = Some(Err(InstallerError::CommandNotFound(self.inv.program.clone())));
                }
            },
            (Phase::Consent, HealEvent::PromptFailed(cause)) => {
                self.phase = Phase::Finished;
                self.result = Some(Err(InstallerError::Prompt(cause)));
            },
            (Phase::Install, HealEvent::Installed(raw)) => {
                self.installs = Ghost(self.installs@ + 1);
                let o = classify(&self.manager, raw);
                if matches!(o, Outcome::Success(_)) {
                    self.phase = Phase::Probe;
                } else {
                    self.phase = Phase::Finished;
                    self.result = Some(o.into_result());
                }
            },
            (Phase::Probe, HealEvent::Probed(found)) => {
                if found {
                    self.phase = Phase::Retry;
                } else {
                    self.phase = Phase::Finished;
                    self.result = Some(Err(InstallerError::CommandNotFound(self.inv.program.clone())));
                }
            },
            (Phase::Retry, HealEvent::Ran(raw)) => {
                self.attempts = Ghost(self.attempts@ + 1);
                let o = classify(&self.inv.program, raw);
                self.phase = Phase::Finished;
                self.result = Some(o.into_result());
            },
            _ => {},
        }
    }
}

} // verus!
