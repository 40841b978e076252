use vstd::prelude::*;

verus! {

/// Where a credential transaction stands.
#[derive(Clone, Copy, Debug, PartialEq, Eq, Structural)]
pub enum Phase {
    /// Creating the `password-` sentinel exclusively.
    Locking,
    /// Holding the sentinel; reading the live record and computing the new one.
    Preparing,
    /// Writing the new record into the sentinel file.
    Writing,
    /// Renaming the sentinel file over the live record.
    Renaming,
    /// Removing the sentinel after a failure or a no-op, then finishing.
    Cleaning(Outcome),
    /// Done; nothing more is done.
    Finished(Outcome),
}

/// How a transaction ended.
#[derive(Clone, Copy, Debug, PartialEq, Eq, Structural)]
pub enum Outcome {
    /// The new record replaced the live one.
    Committed,
    /// The record needed no change; the live record is untouched.
    Unchanged,
    /// Another writer holds the sentinel; retry later.
    Busy,
    /// An operation failed; the live record is untouched.
    Failed,
}

/// What the last action reported.
#[derive(Clone, Copy, Debug, PartialEq, Eq, Structural)]
pub enum Event {
    /// The action succeeded.
    Done,
    /// The sentinel already exists.
    Busy,
    /// The action failed.
    Failed,
    /// The new record is computed; `true` when it differs from the live one
    /// and must be written.
    Prepared(bool),
}

/// What the driver must do next.
#[derive(Clone, Copy, Debug, PartialEq, Eq, Structural)]
pub enum Action {
    /// Create `password-` exclusively, mode 0600.
    CreateSentinel,
    /// Read what the operation needs and compute the new record.
    Prepare,
    /// Write the whole new record into `password-`.
    WriteSentinel,
    /// Rename `password-` over `password`.
    RenameOverLive,
    /// Remove `password-`; a failure to do so is ignored.
    RemoveSentinel,
    /// Report the outcome.
    Finish(Outcome),
}

/// The transition of the credential transaction on an event.
pub open spec fn step_spec(phase: Phase, ev: Event) -> (Phase, Action) {
    match phase {
        Phase::Locking => match ev {
            Event::Done => (Phase::Preparing, Action::Prepare),
            Event::Busy => (Phase::Finished(Outcome::Busy), Action::Finish(Outcome::Busy)),
            _ => (Phase::Finished(Outcome::Failed), Action::Finish(Outcome::Failed)),
        },
        Phase::Preparing => match ev {
            Event::Prepared(true) => (Phase::Writing, Action::WriteSentinel),
            Event::Prepared(false) => (Phase::Cleaning(Outcome::Unchanged), Action::RemoveSentinel),
            _ => (Phase::Cleaning(Outcome::Failed), Action::RemoveSentinel),
        },
        Phase::Writing => match ev {
            Event::Done => (Phase::Renaming, Action::RenameOverLive),
            _ => (Phase::Cleaning(Outcome::Failed), Action::RemoveSentinel),
        },
        Phase::Renaming => match ev {
            Event::Done => (Phase::Finished(Outcome::Committed), Action::Finish(Outcome::Committed)),
            _ => (Phase::Cleaning(Outcome::Failed), Action::RemoveSentinel),
        },
        Phase::Cleaning(o) => (Phase::Finished(o), Action::Finish(o)),
        Phase::Finished(o) => (Phase::Finished(o), Action::Finish(o)),
    }
}

/// The first phase and action of a credential transaction: take the sentinel.
pub fn begin() -> (r: (Phase, Action))
    ensures
        r == (Phase::Locking, Action::CreateSentinel),
{
    (Phase::Locking, Action::CreateSentinel)
}

/// The next phase and action once the last action reported `ev`.
///
/// The live record is replaced only by renaming a sentinel whose whole new
/// record was reported written; a writer that finds the sentinel taken
/// stops at once and leaves the other writer's sentinel and the live record
/// alone; once the sentinel is held, every way out other than the rename
/// removes it.
pub fn step(phase: Phase, ev: Event) -> (r: (Phase, Action))
    ensures
        r == step_spec(phase, ev),
        r.1 == Action::RenameOverLive <==> (phase == Phase::Writing && ev == Event::Done),
        r.1 == Action::WriteSentinel <==> (phase == Phase::Preparing && ev == Event::Prepared(true)),
        phase == Phase::Locking && ev == Event::Busy ==> r == (
            Phase::Finished(Outcome::Busy),
            Action::Finish(Outcome::Busy),
        ),
        (phase == Phase::Preparing || phase == Phase::Writing || phase == Phase::Renaming) && (ev
            == Event::Failed || ev == Event::Busy) ==> r == (
            Phase::Cleaning(Outcome::Failed),
            Action::RemoveSentinel,
        ),
{
    match phase {
        Phase::Locking => match ev {
            Event::Done => (Phase::Preparing, Action::Prepare),
            Event::Busy => (Phase::Finished(Outcome::Busy), Action::Finish(Outcome::Busy)),
            _ => (Phase::Finished(Outcome::Failed), Action::Finish(Outcome::Failed)),
        },
        Phase::Preparing => match ev {
            Event::Prepared(true) => (Phase::Writing, Action::WriteSentinel),
            Event::Prepared(false) => (Phase::Cleaning(Outcome::Unchanged), Action::RemoveSentinel),
            _ => (Phase::Cleaning(Outcome::Failed), Action::RemoveSentinel),
        },
        Phase::Writing => match ev {
            Event::Done => (Phase::Renaming, Action::RenameOverLive),
            _ => (Phase::Cleaning(Outcome::Failed), Action::RemoveSentinel),
        },
        Phase::Renaming => match ev {
            Event::Done => (Phase::Finished(Outcome::Committed), Action::Finish(Outcome::Committed)),
            _ => (Phase::Cleaning(Outcome::Failed), Action::RemoveSentinel),
        },
        Phase::Cleaning(o) => (Phase::Finished(o), Action::Finish(o)),
        Phase::Finished(o) => (Phase::Finished(o), Action::Finish(o)),
    }
}

/// The actions that a run of events produces after `begin`, from `phase`.
pub open spec fn run_actions(phase: Phase, evs: Seq<Event>) -> Seq<Action>
    decreases evs.len(),
{
    if evs.len() == 0 {
        Seq::empty()
    } else {
        let (p, a) = step_spec(phase, evs[0]);
        seq![a] + run_actions(p, evs.drop_first())
    }
}

/// In every run of the protocol, the rename over the live record comes only
/// right after the write of the sentinel was reported done, and a writer
/// that finds the sentinel taken does nothing but report that.
#[verifier::rlimit(30)]
pub proof fn lemma_protocol(evs: Seq<Event>)
    requires
        evs.len() >= 1,
    ensures
        forall|i: int|
            0 <= i < run_actions(Phase::Locking, evs).len() && #[trigger] run_actions(
                Phase::Locking,
                evs,
            )[i] == Action::RenameOverLive ==> i >= 2 && evs[i] == Event::Done && run_actions(
                Phase::Locking,
                evs,
            )[i - 1] == Action::WriteSentinel,
        evs[0] == Event::Busy ==> forall|i: int|
            0 <= i < run_actions(Phase::Locking, evs).len() ==> #[trigger] run_actions(
                Phase::Locking,
                evs,
            )[i] == Action::Finish(Outcome::Busy),
{
    let acts = run_actions(Phase::Locking, evs);
    lemma_run_len(Phase::Locking, evs);
    lemma_run_rename(Phase::Locking, evs);
    lemma_run_unfold(Phase::Locking, evs);
    lemma_step_facts(Phase::Locking, evs[0]);
    assert(acts[0] == step_spec(Phase::Locking, evs[0]).1);
    assert forall|i: int|
        0 <= i < acts.len() && #[trigger] acts[i] == Action::RenameOverLive implies i >= 2
        && evs[i] == Event::Done && acts[i - 1] == Action::WriteSentinel by {
        if i == 1 {
            assert(acts[0] == Action::WriteSentinel);
        }
    }
    if evs[0] == Event::Busy {
        let rest = evs.drop_first();
        lemma_run_finished(Outcome::Busy, rest);
        assert forall|i: int| 0 <= i < acts.len() implies #[trigger] acts[i] == Action::Finish(
            Outcome::Busy,
        ) by {
            if i > 0 {
                assert(acts[i] == run_actions(Phase::Finished(Outcome::Busy), rest)[i - 1]);
            }
        }
    }
}

proof fn lemma_run_unfold(phase: Phase, evs: Seq<Event>)
    requires
        evs.len() > 0,
    ensures
        run_actions(phase, evs) == seq![step_spec(phase, evs[0]).1] + run_actions(
            step_spec(phase, evs[0]).0,
            evs.drop_first(),
        ),
{
}

proof fn lemma_run_len(phase: Phase, evs: Seq<Event>)
    ensures
        run_actions(phase, evs).len() == evs.len(),
    decreases evs.len(),
{
    if evs.len() > 0 {
        lemma_run_len(step_spec(phase, evs[0]).0, evs.drop_first());
    }
}

proof fn lemma_run_finished(o: Outcome, evs: Seq<Event>)
    ensures
        forall|i: int|
            0 <= i < evs.len() ==> #[trigger] run_actions(Phase::Finished(o), evs)[i]
                == Action::Finish(o),
    decreases evs.len(),
{
    lemma_run_len(Phase::Finished(o), evs);
    if evs.len() > 0 {
        let rest = evs.drop_first();
        lemma_run_finished(o, rest);
        lemma_run_unfold(Phase::Finished(o), evs);
        assert forall|i: int| 0 <= i < evs.len() implies #[trigger] run_actions(
            Phase::Finished(o),
            evs,
        )[i] == Action::Finish(o) by {
            if i > 0 {
                assert(run_actions(Phase::Finished(o), evs)[i] == run_actions(
                    Phase::Finished(o),
                    rest,
                )[i - 1]);
            }
        }
    }
}

proof fn lemma_step_facts(phase: Phase, ev: Event)
    ensures
        step_spec(phase, ev).1 == Action::RenameOverLive ==> phase == Phase::Writing && ev
            == Event::Done,
        step_spec(phase, ev).0 == Phase::Writing ==> step_spec(phase, ev).1 == Action::WriteSentinel,
        phase == Phase::Locking ==> step_spec(phase, ev).1 != Action::WriteSentinel,
{
}

proof fn lemma_run_rename(phase: Phase, evs: Seq<Event>)
    ensures
        forall|i: int|
            0 <= i < evs.len() && #[trigger] run_actions(phase, evs)[i] == Action::RenameOverLive
                ==> evs[i] == Event::Done && (i == 0 ==> phase == Phase::Writing) && (i > 0
                ==> run_actions(phase, evs)[i - 1] == Action::WriteSentinel),
    decreases evs.len(),
{
    lemma_run_len(phase, evs);
    if evs.len() > 0 {
        let p = step_spec(phase, evs[0]).0;
        let rest = evs.drop_first();
        lemma_run_rename(p, rest);
        lemma_run_len(p, rest);
        lemma_run_unfold(phase, evs);
        lemma_step_facts(phase, evs[0]);
        let acts = run_actions(phase, evs);
        let tail = run_actions(p, rest);
        assert forall|i: int|
            0 <= i < evs.len() && #[trigger] acts[i] == Action::RenameOverLive implies evs[i]
            == Event::Done && (i == 0 ==> phase == Phase::Writing) && (i > 0 ==> acts[i - 1]
            == Action::WriteSentinel) by {
            if i > 0 {
                assert(acts[i] == tail[i - 1]);
                assert(rest[i - 1] == evs[i]);
                if i > 1 {
                    assert(acts[i - 1] == tail[i - 2]);
                }
            }
        }
    }
}

} // verus!
