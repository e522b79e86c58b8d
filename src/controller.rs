//! The step controller: walks the fixed sequence of installation steps,
//! skips those that the checkpoint records as done, and asks for the record
//! to be saved after each newly completed step.
//!
//! The steps, in order: 1 boot-mode detection, 2 disk partitioning,
//! 3 partition formatting, 4 mounting, 5 time synchronisation, 6 base system,
//! 7 kernel, 8 final setup. Mounts do not survive a restart, so the mounting
//! step runs again even when the checkpoint records it as done.
//!
//! A `Controller` is driven from outside: `action` names what to do next, and
//! the caller performs it and reports what happened through `handle`.
use vstd::prelude::*;
use crate::config::{Config, KernelVariant};
use crate::session::Session;

verus! {

/// Number of steps in the installation.
pub const STEP_COUNT: u8 = 8;

/// The step that runs again even when the checkpoint records it as done.
pub const MOUNT_STEP: u8 = 4;

/// What a completed step hands back to be recorded.
pub enum Facts {
    Nothing,
    /// The disk that was partitioned.
    Disk(String),
    /// The roles assigned to the partitions.
    Layout(Config),
    /// The kernel variant that was installed.
    Kernel(KernelVariant),
}

/// Where the installation stands.
#[derive(Debug, Clone, Copy, PartialEq, Eq, Structural)]
pub enum Stage {
    /// A checkpoint was found: waiting for the operator to resume or not.
    Resume,
    /// The operator declined: waiting for the checkpoint to be cleared.
    Restart,
    /// At step `i`: skipping it or running it.
    Step(u8),
    /// Step `i` completed: waiting for the record to be saved.
    Save(u8),
    /// Every step is done: waiting for the checkpoint to be cleared.
    Wrapup,
    Complete,
    Aborted,
}

/// What the caller does next.
#[derive(Debug, Clone, Copy, PartialEq, Eq, Structural)]
pub enum StepAction {
    /// Ask whether to resume from the checkpoint, which records this many
    /// completed steps.
    AskResume(u8),
    /// Remove the stored checkpoint.
    Clear,
    /// Report step `i` as already done.
    Skip(u8),
    /// Run step `i`.
    Execute(u8),
    /// Store the record (`Session::save` gives the text).
    Save,
    /// The installation is complete.
    Finish,
    /// A failure ended the run.
    Abort,
}

/// What the caller reports back.
pub enum StepEvent {
    /// The operator's answer to the resume question.
    Resume(bool),
    /// A skip was reported, or a save or clear was attempted; failures of
    /// the latter two are not fatal.
    Done,
    /// The step ran and produced these facts.
    Succeeded(Facts),
    /// The step, or the resume prompt, failed.
    Failed,
}

pub struct Controller {
    pub stage: Stage,
    /// The record of the run: progress and facts.
    pub session: Session,
    /// The checkpoint found at startup, until the operator decides.
    pub saved: Session,
}

/// The record of a fresh installation.
pub open spec fn fresh() -> Session {
    Session {
        last_step: 0,
        disk: None,
        efi_partition: None,
        swap_partition: None,
        root_partition: None,
        kernel: None,
    }
}

/// The state at startup, given the checkpoint that was loaded; a record whose
/// progress is 0 counts as no checkpoint.
pub open spec fn start(loaded: Option<Session>) -> Controller {
    match loaded {
        Some(s) if s.last_step > 0 => Controller { stage: Stage::Resume, session: fresh(), saved: s },
        _ => Controller { stage: Stage::Step(1), session: fresh(), saved: fresh() },
    }
}

/// Whether step `i` is skipped under the record `s`.
pub open spec fn skipped(i: u8, s: Session) -> bool {
    i <= s.last_step && i != MOUNT_STEP
}

/// The record after merging the facts of a completed step.
pub open spec fn merge(s: Session, f: Facts) -> Session {
    match f {
        Facts::Nothing => s,
        Facts::Disk(d) => Session { disk: Some(d), ..s },
        Facts::Layout(c) => Session {
            efi_partition: Some(c.efi_partition),
            swap_partition: c.swap_partition,
            root_partition: Some(c.root_partition),
            ..s
        },
        Facts::Kernel(k) => Session { kernel: Some(k), ..s },
    }
}

/// The stage after step `i` is settled.
pub open spec fn after(i: u8) -> Stage {
    if i >= STEP_COUNT {
        Stage::Wrapup
    } else {
        Stage::Step((i + 1) as u8)
    }
}

/// The action that a state asks for.
pub open spec fn action_of(c: Controller) -> StepAction {
    match c.stage {
        Stage::Resume => StepAction::AskResume(c.saved.last_step),
        Stage::Restart => StepAction::Clear,
        Stage::Step(i) => if skipped(i, c.session) {
            StepAction::Skip(i)
        } else {
            StepAction::Execute(i)
        },
        Stage::Save(_) => StepAction::Save,
        Stage::Wrapup => StepAction::Clear,
        Stage::Complete => StepAction::Finish,
        Stage::Aborted => StepAction::Abort,
    }
}

/// The state after event `e`; an event that the state does not wait for
/// changes nothing.
pub open spec fn next(c: Controller, e: StepEvent) -> Controller {
    match (c.stage, e) {
        (Stage::Resume, StepEvent::Resume(yes)) => if yes {
            Controller { stage: Stage::Step(1), session: c.saved, saved: fresh() }
        } else {
            Controller { stage: Stage::Restart, session: fresh(), saved: fresh() }
        },
        (Stage::Resume, StepEvent::Failed) => Controller { stage: Stage::Aborted, ..c },
        (Stage::Restart, StepEvent::Done) => Controller { stage: Stage::Step(1), ..c },
        (Stage::Step(i), StepEvent::Done) => if skipped(i, c.session) {
            Controller { stage: after(i), ..c }
        } else {
            c
        },
        (Stage::Step(i), StepEvent::Succeeded(f)) => if skipped(i, c.session) {
            c
        } else if i <= c.session.last_step {
            Controller { stage: after(i), session: merge(c.session, f), ..c }
        } else {
            let s = Session { last_step: i, ..merge(c.session, f) };
            Controller {
                stage: if i >= STEP_COUNT { Stage::Wrapup } else { Stage::Save(i) },
                session: s,
                ..c
            }
        },
        (Stage::Step(i), StepEvent::Failed) => if skipped(i, c.session) {
            c
        } else {
            Controller { stage: Stage::Aborted, ..c }
        },
        (Stage::Save(i), StepEvent::Done) => Controller { stage: after(i), ..c },
        (Stage::Wrapup, StepEvent::Done) => Controller { stage: Stage::Complete, ..c },
        _ => c,
    }
}

/// The state after the events `evs`, in order.
pub open spec fn replay(c: Controller, evs: Seq<StepEvent>) -> Controller
    decreases evs.len(),
{
    if evs.len() == 0 {
        c
    } else {
        replay(next(c, evs[0]), evs.drop_first())
    }
}

/// The report of an uneventful run: every step that runs succeeds without
/// producing facts, and everything else is done.
pub open spec fn routine(c: Controller) -> StepEvent {
    if action_of(c) is Execute {
        StepEvent::Succeeded(Facts::Nothing)
    } else {
        StepEvent::Done
    }
}

/// The state after `n` uneventful reports.
pub open spec fn drive(c: Controller, n: nat) -> Controller
    decreases n,
{
    if n == 0 {
        c
    } else {
        let d = drive(c, (n - 1) as nat);
        next(d, routine(d))
    }
}

/// The state once the operator accepts to resume from `saved`.
pub open spec fn resumed(saved: Session) -> Controller {
    next(start(Some(saved)), StepEvent::Resume(true))
}

spec fn keeps_progress(c: Controller, k: u8) -> bool {
    &&& c.session.last_step >= k
    &&& !(c.stage is Resume)
    &&& !(c.stage is Restart)
}

proof fn lemma_keeps_progress(c: Controller, k: u8, evs: Seq<StepEvent>)
    requires
        keeps_progress(c, k),
    ensures
        keeps_progress(replay(c, evs), k),
    decreases evs.len(),
{
    if evs.len() > 0 {
        lemma_keeps_progress(next(c, evs[0]), k, evs.drop_first());
    }
}

spec fn saves_completed(c: Controller) -> bool {
    c.stage matches Stage::Save(i) ==> i >= 1 && c.session.last_step == i
}

proof fn lemma_saves_completed(c: Controller, evs: Seq<StepEvent>)
    requires
        saves_completed(c),
    ensures
        saves_completed(replay(c, evs)),
    decreases evs.len(),
{
    if evs.len() > 0 {
        lemma_saves_completed(next(c, evs[0]), evs.drop_first());
    }
}

/// Whatever the checkpoint found at startup and whatever is reported, a save
/// is asked for only right after step `i` completed, with progress exactly
/// `i`, which is at least 1: a record of progress 0 is never stored.
pub proof fn lemma_saves_only_completed(loaded: Option<Session>, evs: Seq<StepEvent>)
    ensures
        ({
            let c = replay(start(loaded), evs);
            action_of(c) == StepAction::Save ==> (c.stage matches Stage::Save(i) && i >= 1
                && c.session.last_step == i)
        }),
{
    lemma_saves_completed(start(loaded), evs);
}

/// Skip rule, first half: after resuming from a checkpoint with progress
/// `k`, whatever is reported, no step up to `k` runs again except the mount
/// step.
pub proof fn lemma_resume_never_reruns(saved: Session, evs: Seq<StepEvent>)
    requires
        saved.last_step >= 1,
    ensures
        action_of(replay(resumed(saved), evs)) matches StepAction::Execute(i) ==> i
            > saved.last_step || i == MOUNT_STEP,
{
    lemma_keeps_progress(resumed(saved), saved.last_step, evs);
}

proof fn lemma_drive_skips(saved: Session, j: nat)
    requires
        1 <= saved.last_step < STEP_COUNT,
        j <= saved.last_step,
    ensures
        drive(resumed(saved), j) == (Controller {
            stage: Stage::Step((j + 1) as u8),
            session: saved,
            saved: fresh(),
        }),
    decreases j,
{
    if j > 0 {
        lemma_drive_skips(saved, (j - 1) as nat);
    }
}

/// Skip rule, second half: resuming from progress `k` below the step count,
/// an uneventful run reports steps 1 to `k` as done (running only the mount
/// step again, when it is among them) and then runs step `k + 1`.
pub proof fn lemma_resume_order(saved: Session)
    requires
        1 <= saved.last_step < STEP_COUNT,
    ensures
        forall|j: nat|
            j < saved.last_step ==> action_of(#[trigger] drive(resumed(saved), j)) == if j + 1
                == MOUNT_STEP {
                StepAction::Execute(MOUNT_STEP)
            } else {
                StepAction::Skip((j + 1) as u8)
            },
        action_of(drive(resumed(saved), saved.last_step as nat)) == StepAction::Execute(
            (saved.last_step + 1) as u8,
        ),
{
    assert forall|j: nat| j < saved.last_step implies action_of(
        #[trigger] drive(resumed(saved), j),
    ) == if j + 1 == MOUNT_STEP {
        StepAction::Execute(MOUNT_STEP)
    } else {
        StepAction::Skip((j + 1) as u8)
    } by {
        lemma_drive_skips(saved, j);
    }
    lemma_drive_skips(saved, saved.last_step as nat);
}

/// Declining to resume: the checkpoint is cleared, and then the run is
/// exactly a fresh one, starting with step 1.
pub proof fn lemma_decline_starts_over(saved: Session)
    requires
        saved.last_step >= 1,
    ensures
        action_of(start(Some(saved))) == StepAction::AskResume(saved.last_step),
        action_of(next(start(Some(saved)), StepEvent::Resume(false))) == StepAction::Clear,
        next(next(start(Some(saved)), StepEvent::Resume(false)), StepEvent::Done) == start(None),
        action_of(start(None)) == StepAction::Execute(1),
{
}

/// A fresh run whose first three steps succeed asks, after the third, to
/// save a record with progress 3 and the facts those steps produced.
pub proof fn lemma_fresh_three_steps(disk: String, layout: Config)
    ensures
        ({
            let c = replay(
                start(None),
                seq![
                    StepEvent::Succeeded(Facts::Nothing),
                    StepEvent::Done,
                    StepEvent::Succeeded(Facts::Disk(disk)),
                    StepEvent::Done,
                    StepEvent::Succeeded(Facts::Layout(layout)),
                ],
            );
            &&& action_of(c) == StepAction::Save
            &&& c.session == (Session {
                last_step: 3,
                disk: Some(disk),
                efi_partition: Some(layout.efi_partition),
                swap_partition: layout.swap_partition,
                root_partition: Some(layout.root_partition),
                kernel: None,
            })
        }),
{
    reveal_with_fuel(replay, 6);
}

impl Controller {
    /// The state at startup, given the checkpoint that was loaded.
    pub fn new(loaded: Option<Session>) -> (r: Controller)
        ensures
            r == start(loaded),
    {
        match loaded {
            Some(s) if s.last_step > 0 => Controller {
                stage: Stage::Resume,
                session: Session::empty(),
                saved: s,
            },
            _ => Controller { stage: Stage::Step(1), session: Session::empty(), saved: Session::empty() },
        }
    }

    /// Takes in what happened.
    pub fn handle(&mut self, e: StepEvent)
        ensures
            *final(self) == next(*old(self), e),
    {
        match (self.stage, e) {
            (Stage::Resume, StepEvent::Resume(yes)) => {
                let mut saved = Session::empty();
                std::mem::swap(&mut saved, &mut self.saved);
                if yes {
                    self.session = saved;
                    self.stage = Stage::Step(1);
                } else {
                    self.session = Session::empty();
                    self.stage = Stage::Restart;
                }
            },
            (Stage::Resume, StepEvent::Failed) => {
                self.stage = Stage::Aborted;
            },
            (Stage::Restart, StepEvent::Done) => {
                self.stage = Stage::Step(1);
            },
            (Stage::Step(i), StepEvent::Done) => {
                if i <= self.session.last_step && i != MOUNT_STEP {
                    self.stage = Self::after(i);
                }
            },
            (Stage::Step(i), StepEvent::Succeeded(f)) => {
                if !(i <= self.session.last_step && i != MOUNT_STEP) {
                    let advance = i > self.session.last_step;
                    Self::merge(&mut self.session, f);
                    if !advance {
                        self.stage = Self::after(i);
                    } else {
                        self.session.last_step = i;
                        self.stage = if i >= STEP_COUNT { Stage::Wrapup } else { Stage::Save(i) };
                    }
                }
            },
            (Stage::Step(i), StepEvent::Failed) => {
                if !(i <= self.session.last_step && i != MOUNT_STEP) {
                    self.stage = Stage::Aborted;
                }
            },
            (Stage::Save(i), StepEvent::Done) => {
                self.stage = Self::after(i);
            },
            (Stage::Wrapup, StepEvent::Done) => {
                self.stage = Stage::Complete;
            },
            _ => {},
        }
    }

    fn after(i: u8) -> (r: Stage)
        ensures
            r == after(i),
    {
        if i >= STEP_COUNT {
            Stage::Wrapup
        } else {
            Stage::Step(i + 1)
        }
    }

    fn merge(s: &mut Session, f: Facts)
        ensures
            *final(s) == merge(*old(s), f),
    {
        match f {
            Facts::Nothing => {},
            Facts::Disk(d) => {
                s.disk = Some(d);
            },
            Facts::Layout(c) => {
                s.efi_partition = Some(c.efi_partition);
                s.swap_partition = c.swap_partition;
                s.root_partition = Some(c.root_partition);
            },
            Facts::Kernel(k) => {
                s.kernel = Some(k);
            },
        }
    }

    /// What to do next.
    pub fn action(&self) -> (r: StepAction)
        ensures
            r == action_of(*self),
    {
        match self.stage {
            Stage::Resume => StepAction::AskResume(self.saved.last_step),
            Stage::Restart => StepAction::Clear,
            Stage::Step(i) => if i <= self.session.last_step && i != MOUNT_STEP {
                StepAction::Skip(i)
            } else {
                StepAction::Execute(i)
            },
            Stage::Save(_) => StepAction::Save,
            Stage::Wrapup => StepAction::Clear,
            Stage::Complete => StepAction::Finish,
            Stage::Aborted => StepAction::Abort,
        }
    }
}

} // verus!
