//! Switching the one display that matches a profile exactly.

use crate::domain::{
    DisplayInput, DisplayMuxProfile, MonitorDescriptor, MonitorFingerprint, SwitchMode, SwitchOutcome,
};
use crate::error::DisplayMuxError;
use crate::port::MonitorControl;
use vstd::prelude::*;

verus! {

/// The displays of `monitors` whose identity is exactly `wanted`, in order.
pub open spec fn exact_matches(
    monitors: Seq<MonitorDescriptor>,
    wanted: MonitorFingerprint,
) -> Seq<MonitorDescriptor> {
    monitors.filter(|monitor: MonitorDescriptor| monitor.fingerprint@ == wanted@)
}

/// The display to switch: the only exact match.
pub open spec fn exact_target_of(
    monitors: Seq<MonitorDescriptor>,
    wanted: MonitorFingerprint,
) -> Result<MonitorDescriptor, DisplayMuxError> {
    let matches = exact_matches(monitors, wanted);
    if matches.len() == 0 {
        Err(DisplayMuxError::TargetNotFound)
    } else if matches.len() == 1 {
        Ok(matches[0])
    } else {
        Err(DisplayMuxError::AmbiguousTarget { count: matches.len() as usize })
    }
}

/// The only display of `monitors` whose identity is exactly `wanted`.
pub fn exact_target(monitors: Vec<MonitorDescriptor>, wanted: &MonitorFingerprint) -> (result:
    Result<MonitorDescriptor, DisplayMuxError>)
    ensures
        result == exact_target_of(monitors@, *wanted),
{
    let ghost keep = |monitor: MonitorDescriptor| monitor.fingerprint@ == wanted@;
    let mut matches: Vec<MonitorDescriptor> = Vec::new();
    let mut i: usize = 0;
    while i < monitors.len()
        invariant
            i <= monitors@.len(),
            keep == (|monitor: MonitorDescriptor| monitor.fingerprint@ == wanted@),
            matches@ == monitors@.take(i as int).filter(keep),
        decreases monitors@.len() - i,
    {
        proof {
            assert(monitors@.take(i + 1).drop_last() =~= monitors@.take(i as int));
            reveal(Seq::filter);
        }
        if wanted.matches_exactly(&monitors[i].fingerprint) {
            matches.push(monitors[i].clone());
        }
        i += 1;
    }
    assert(monitors@.take(monitors@.len() as int) =~= monitors@);
    let count: usize = matches.len();
    if count == 0 {
        Err(DisplayMuxError::TargetNotFound)
    } else if count == 1 {
        Ok(matches[0].clone())
    } else {
        Err(DisplayMuxError::AmbiguousTarget { count })
    }
}

/// A target always carries the wanted identity, and no other display does.
pub proof fn a_target_is_never_guessed(
    monitors: Seq<MonitorDescriptor>,
    wanted: MonitorFingerprint,
    target: MonitorDescriptor,
)
    requires
        exact_target_of(monitors, wanted) == Ok::<MonitorDescriptor, DisplayMuxError>(target),
    ensures
        target.fingerprint@ == wanted@,
        monitors.contains(target),
        forall|i: int, j: int|
            0 <= i < j < monitors.len() ==> !((#[trigger] monitors[i]).fingerprint@ == wanted@ && (
            #[trigger] monitors[j]).fingerprint@ == wanted@),
{
    let keep = |monitor: MonitorDescriptor| monitor.fingerprint@ == wanted@;
    let matches = monitors.filter(keep);
    monitors.lemma_filter_contains_rev(keep, matches[0]);
    assert(matches.contains(matches[0]));
    assert(keep(matches[0])) by {
        broadcast use vstd::seq_lib::group_filter_ensures;

    }
    assert forall|i: int, j: int| 0 <= i < j < monitors.len() implies !((
    #[trigger] monitors[i]).fingerprint@ == wanted@ && (#[trigger] monitors[j]).fingerprint@
        == wanted@) by {
        if keep(monitors[i]) && keep(monitors[j]) {
            lemma_two_matches(monitors, keep, i, j);
        }
    }
}

proof fn lemma_two_matches(
    monitors: Seq<MonitorDescriptor>,
    keep: spec_fn(MonitorDescriptor) -> bool,
    i: int,
    j: int,
)
    requires
        0 <= i < j < monitors.len(),
        keep(monitors[i]),
        keep(monitors[j]),
    ensures
        monitors.filter(keep).len() >= 2,
    decreases monitors.len(),
{
    reveal(Seq::filter);
    if j < monitors.len() - 1 {
        lemma_two_matches(monitors.drop_last(), keep, i, j);
    } else {
        lemma_one_match(monitors.drop_last(), keep, i);
    }
}

proof fn lemma_one_match(
    monitors: Seq<MonitorDescriptor>,
    keep: spec_fn(MonitorDescriptor) -> bool,
    i: int,
)
    requires
        0 <= i < monitors.len(),
        keep(monitors[i]),
    ensures
        monitors.filter(keep).len() >= 1,
    decreases monitors.len(),
{
    reveal(Seq::filter);
    if i < monitors.len() - 1 {
        lemma_one_match(monitors.drop_last(), keep, i);
    }
}

/// What is left to do once the display's input is known.
#[derive(Debug, PartialEq, Eq)]
pub enum SwitchStep {
    /// Nothing is written.
    Finished(SwitchOutcome),
    /// The display is to be written to.
    Write { target: MonitorDescriptor, previous: DisplayInput, selected: DisplayInput },
}

/// What is left to do once the display's input is known: a dry run and a
/// display that already shows the input are left alone.
pub open spec fn step_of(
    target: MonitorDescriptor,
    current: DisplayInput,
    requested: DisplayInput,
    mode: SwitchMode,
) -> SwitchStep {
    if mode == SwitchMode::DryRun {
        SwitchStep::Finished(SwitchOutcome::DryRun { target, current, requested })
    } else if current == requested {
        SwitchStep::Finished(SwitchOutcome::AlreadySelected { target, input: current })
    } else {
        SwitchStep::Write { target, previous: current, selected: requested }
    }
}

/// What is left to do once the display's input is known.
pub fn next_step(
    target: MonitorDescriptor,
    current: DisplayInput,
    requested: DisplayInput,
    mode: SwitchMode,
) -> (step: SwitchStep)
    ensures
        step == step_of(target, current, requested, mode),
{
    if mode == SwitchMode::DryRun {
        return SwitchStep::Finished(SwitchOutcome::DryRun { target, current, requested });
    }
    if current == requested {
        return SwitchStep::Finished(SwitchOutcome::AlreadySelected { target, input: current });
    }
    SwitchStep::Write { target, previous: current, selected: requested }
}

/// A display is only written to for a switch that is to be carried out and that
/// changes its input.
pub proof fn only_a_real_change_is_written(
    target: MonitorDescriptor,
    current: DisplayInput,
    requested: DisplayInput,
    mode: SwitchMode,
)
    ensures
        step_of(target, current, requested, mode) is Write <==> mode == SwitchMode::Apply && current
            != requested,
{
}

pub struct DisplayMuxService<C> {
    pub controller: C,
    pub profile: DisplayMuxProfile,
}

/// What a switch returns, given what the display interface answered when it
/// was asked: first for the displays, then for the target's input, and last,
/// where there is something to write, for the write.
pub open spec fn switch_result<C: MonitorControl>(
    controller: &C,
    wanted: MonitorFingerprint,
    requested: DisplayInput,
    mode: SwitchMode,
    listed: Result<Vec<MonitorDescriptor>, DisplayMuxError>,
    read: Result<DisplayInput, DisplayMuxError>,
    written: Result<(), DisplayMuxError>,
    result: Result<SwitchOutcome, DisplayMuxError>,
) -> bool {
    &&& call_ensures(C::enumerate, (controller,), listed)
    &&& match listed {
        Err(error) => result == Err::<SwitchOutcome, _>(error),
        Ok(monitors) => match exact_target_of(monitors@, wanted) {
            Err(error) => result == Err::<SwitchOutcome, _>(error),
            Ok(target) => {
                &&& call_ensures(C::read_input, (controller, &target.id), read)
                &&& match read {
                    Err(error) => result == Err::<SwitchOutcome, _>(error),
                    Ok(current) => match step_of(target, current, requested, mode) {
                        SwitchStep::Finished(outcome) => result == Ok::<_, DisplayMuxError>(
                            outcome,
                        ),
                        SwitchStep::Write { .. } => {
                            &&& call_ensures(
                                C::write_input,
                                (controller, &target.id, requested),
                                written,
                            )
                            &&& match written {
                                Err(error) => result == Err::<SwitchOutcome, _>(error),
                                Ok(_) => result == Ok::<_, DisplayMuxError>(
                                    SwitchOutcome::Switched {
                                        target,
                                        previous: current,
                                        selected: requested,
                                    },
                                ),
                            }
                        },
                    },
                }
            },
        },
    }
}

impl<C: MonitorControl> DisplayMuxService<C> {
    pub fn new(controller: C, profile: DisplayMuxProfile) -> (service: Self)
        ensures
            service.controller == controller,
            service.profile == profile,
    {
        DisplayMuxService { controller, profile }
    }

    /// The connected displays.
    pub fn list_monitors(&self) -> (result: Result<Vec<MonitorDescriptor>, DisplayMuxError>)
        ensures
            call_ensures(C::enumerate, (&self.controller,), result),
    {
        self.controller.enumerate()
    }

    /// The only connected display that matches the profile exactly.
    pub fn find_exact_target(&self) -> (result: Result<MonitorDescriptor, DisplayMuxError>)
        ensures
            exists|listed: Result<Vec<MonitorDescriptor>, DisplayMuxError>|
                {
                    &&& #[trigger] call_ensures(C::enumerate, (&self.controller,), listed)
                    &&& result == match listed {
                        Err(error) => Err(error),
                        Ok(monitors) => exact_target_of(monitors@, self.profile.shared_monitor),
                    }
                },
    {
        match self.controller.enumerate() {
            Ok(monitors) => exact_target(monitors, &self.profile.shared_monitor),
            Err(error) => Err(error),
        }
    }

    /// Makes the shared display show `requested`, or looks at what that would
    /// come to.
    pub fn switch_to_input(&self, requested: DisplayInput, mode: SwitchMode) -> (result: Result<
        SwitchOutcome,
        DisplayMuxError,
    >)
        ensures
            exists|
                listed: Result<Vec<MonitorDescriptor>, DisplayMuxError>,
                read: Result<DisplayInput, DisplayMuxError>,
                written: Result<(), DisplayMuxError>,
            |
                switch_result(
                    &self.controller,
                    self.profile.shared_monitor,
                    requested,
                    mode,
                    listed,
                    read,
                    written,
                    result,
                ),
    {
        let ghost unread: Result<DisplayInput, DisplayMuxError> = Ok(requested);
        let ghost unwritten: Result<(), DisplayMuxError> = Ok(());
        let found = self.find_exact_target();
        let ghost (g, w) = (&self.controller, self.profile.shared_monitor);
        let ghost l = choose|listed: Result<Vec<MonitorDescriptor>, DisplayMuxError>|
            {
                &&& #[trigger] call_ensures(C::enumerate, (&self.controller,), listed)
                &&& found == match listed {
                    Err(error) => Err(error),
                    Ok(monitors) => exact_target_of(monitors@, self.profile.shared_monitor),
                }
            };
        let target = match found {
            Ok(target) => target,
            Err(error) => {
                let result = Err(error);
                assert(switch_result(g, w, requested, mode, l, unread, unwritten, result));
                return result;
            },
        };
        let read = self.controller.read_input(&target.id);
        let ghost r = read;
        let current = match read {
            Ok(current) => current,
            Err(error) => {
                let result = Err(error);
                assert(switch_result(g, w, requested, mode, l, r, unwritten, result));
                return result;
            },
        };
        match next_step(target, current, requested, mode) {
            SwitchStep::Finished(outcome) => {
                let result = Ok(outcome);
                assert(switch_result(g, w, requested, mode, l, r, unwritten, result));
                result
            },
            SwitchStep::Write { target, previous, selected } => {
                let written = self.controller.write_input(&target.id, selected);
                let ghost done = written;
                match written {
                    Err(error) => {
                        let result = Err(error);
                        assert(switch_result(g, w, requested, mode, l, r, done, result));
                        result
                    },
                    Ok(_) => {
                        let result = Ok(SwitchOutcome::Switched { target, previous, selected });
                        assert(switch_result(g, w, requested, mode, l, r, done, result));
                        result
                    },
                }
            },
        }
    }
}

} // verus!
