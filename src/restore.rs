//! The decisions of a restore, as a machine from state and event to the
//! next state and the action to perform. The caller performs each action
//! (moving the configuration directory aside, reading the store, asking for
//! a choice, opening the capsule, writing its entries) and reports back
//! what happened as the next event.

use crate::paths::{comps, restore_target, within_config};
use crate::selection::{choose_capsule, selection, SelectError};
use crate::store::{by_name, capsules, capsules_by_name, names, views, StoreEntry};
use vstd::prelude::*;

verus! {

/// How far a restore has come.
#[derive(Clone, Copy, Debug, PartialEq, Eq)]
pub enum Phase {
    /// Nothing decided yet; the configuration directory may be in place.
    Start,
    /// The configuration directory has been moved aside or was absent.
    Cleared,
    /// The menu of capsules has been shown; a choice is awaited.
    Choosing,
    /// The chosen capsule is open and its entries are being placed.
    Extracting,
    /// The restore is over.
    Finished,
}

/// What the caller observed.
pub enum RestoreEvent {
    /// Whether the configuration directory exists.
    Probed { config_exists: bool },
    /// The configuration directory was moved aside.
    MovedAside,
    /// The store's entries, or `None` where the store directory is absent.
    StoreRead { entries: Option<Vec<StoreEntry>> },
    /// The line the user typed.
    LineRead { line: String },
    /// The next entry of the open capsule, as path components.
    EntryRead { entry: Vec<String>, is_dir: bool },
    /// The open capsule has no more entries.
    ArchiveEnd,
}

/// What the caller is to do next.
pub enum RestoreAction {
    /// Move the configuration directory aside, then report `MovedAside`.
    MoveConfigAside,
    /// Read the store directory, then report `StoreRead`.
    ReadStore,
    /// Tell the user that there are no capsules; the restore is over.
    ReportNoCapsules,
    /// Show the numbered menu, then report the line read as `LineRead`.
    AskSelection { menu: Vec<String> },
    /// The line chose no capsule; the restore fails.
    Reject { error: SelectError },
    /// Open the named capsule, then report its entries one by one.
    OpenCapsule { name: String },
    /// Create the directory at this path.
    MakeDir { path: Vec<String> },
    /// Write the current entry's bytes to a file at this path.
    WriteFile { path: Vec<String> },
    /// Tell the user that the restore is complete; it is over.
    ReportComplete,
    /// The event does not fit the phase; nothing changes.
    Ignore,
}

/// An event after which the configuration directory is known to be out of
/// the way.
pub open spec fn clears_config(e: RestoreEvent) -> bool {
    e matches RestoreEvent::Probed { config_exists: false } || e is MovedAside
}

/// The phases that an event can lead to from phase `p`.
pub open spec fn phase_step(p: Phase, e: RestoreEvent, q: Phase) -> bool {
    match p {
        Phase::Start => if clears_config(e) {
            q == Phase::Cleared
        } else {
            q == Phase::Start
        },
        Phase::Cleared => if e is StoreRead {
            (e->entries is None && q == Phase::Finished) || (e->entries is Some && q
                == Phase::Choosing)
        } else {
            q == Phase::Cleared
        },
        Phase::Choosing => if e is LineRead {
            q == Phase::Extracting || q == Phase::Finished
        } else {
            q == Phase::Choosing
        },
        Phase::Extracting => if e is ArchiveEnd {
            q == Phase::Finished
        } else {
            q == Phase::Extracting
        },
        Phase::Finished => q == Phase::Finished,
    }
}

/// A restore in progress.
pub struct Restore {
    pub phase: Phase,
    /// The capsule names offered, in menu order.
    pub menu: Vec<String>,
    /// The configuration directory, as path components.
    pub config_dir: Vec<String>,
}

impl Restore {
    pub fn new(config_dir: Vec<String>) -> (r: Restore)
        ensures
            r.phase == Phase::Start,
            r.menu@.len() == 0,
            r.config_dir == config_dir,
    {
        Restore { phase: Phase::Start, menu: Vec::new(), config_dir }
    }

    /// Takes in what the caller observed and says what to do next.
    pub fn step(&mut self, event: RestoreEvent) -> (a: RestoreAction)
        ensures
            phase_step(old(self).phase, event, final(self).phase),
            final(self).config_dir == old(self).config_dir,
            a is Ignore ==> final(self).phase == old(self).phase,
            old(self).phase == Phase::Start ==> (match event {
                RestoreEvent::Probed { config_exists: true } => a is MoveConfigAside,
                RestoreEvent::Probed { config_exists: false } => a is ReadStore,
                RestoreEvent::MovedAside => a is ReadStore,
                _ => a is Ignore,
            }),
            old(self).phase == Phase::Cleared ==> (match event {
                RestoreEvent::StoreRead { entries: None } => a is ReportNoCapsules,
                RestoreEvent::StoreRead { entries: Some(es) } => a matches RestoreAction::AskSelection {
                    menu,
                } && views(menu@) == by_name(names(capsules(es@))) && views(final(self).menu@)
                    == views(menu@),
                _ => a is Ignore,
            }),
            old(self).phase == Phase::Choosing ==> (match event {
                RestoreEvent::LineRead { line } => match selection(
                    line@,
                    old(self).menu@.len(),
                ) {
                    Ok(i) => final(self).phase == Phase::Extracting && (a matches RestoreAction::OpenCapsule {
                        name,
                    } && name@ == old(self).menu@[i as int]@),
                    Err(e) => final(self).phase == Phase::Finished && a == (RestoreAction::Reject {
                        error: e,
                    }),
                },
                _ => a is Ignore,
            }),
            old(self).phase == Phase::Extracting ==> (match event {
                RestoreEvent::EntryRead { entry, is_dir } => (if is_dir {
                    a matches RestoreAction::MakeDir { path } && comps(path@) == comps(
                        old(self).config_dir@,
                    ) + within_config(comps(entry@))
                } else {
                    a matches RestoreAction::WriteFile { path } && comps(path@) == comps(
                        old(self).config_dir@,
                    ) + within_config(comps(entry@))
                }),
                RestoreEvent::ArchiveEnd => a is ReportComplete,
                _ => a is Ignore,
            }),
            old(self).phase == Phase::Finished ==> a is Ignore,
    {
        match self.phase {
            Phase::Start => match event {
                RestoreEvent::Probed { config_exists } => {
                    if config_exists {
                        RestoreAction::MoveConfigAside
                    } else {
                        self.phase = Phase::Cleared;
                        RestoreAction::ReadStore
                    }
                },
                RestoreEvent::MovedAside => {
                    self.phase = Phase::Cleared;
                    RestoreAction::ReadStore
                },
                _ => RestoreAction::Ignore,
            },
            Phase::Cleared => match event {
                RestoreEvent::StoreRead { entries } => match entries {
                    None => {
                        self.phase = Phase::Finished;
                        RestoreAction::ReportNoCapsules
                    },
                    Some(es) => {
                        let menu = capsules_by_name(&es);
                        self.menu = menu.clone();
                        self.phase = Phase::Choosing;
                        RestoreAction::AskSelection { menu }
                    },
                },
                _ => RestoreAction::Ignore,
            },
            Phase::Choosing => match event {
                RestoreEvent::LineRead { line } => match choose_capsule(&self.menu, line.as_str()) {
                    Ok(name) => {
                        self.phase = Phase::Extracting;
                        RestoreAction::OpenCapsule { name }
                    },
                    Err(error) => {
                        self.phase = Phase::Finished;
                        RestoreAction::Reject { error }
                    },
                },
                _ => RestoreAction::Ignore,
            },
            Phase::Extracting => match event {
                RestoreEvent::EntryRead { entry, is_dir } => {
                    let path = restore_target(&self.config_dir, &entry);
                    if is_dir {
                        RestoreAction::MakeDir { path }
                    } else {
                        RestoreAction::WriteFile { path }
                    }
                },
                RestoreEvent::ArchiveEnd => {
                    self.phase = Phase::Finished;
                    RestoreAction::ReportComplete
                },
                _ => RestoreAction::Ignore,
            },
            Phase::Finished => RestoreAction::Ignore,
        }
    }
}

/// Along any run of a restore from its start, a phase past the start, and
/// so any opening of a capsule or placing of an entry, comes only after an
/// event that moved the configuration directory aside or found it absent.
pub proof fn lemma_cleared_before_extraction(phases: Seq<Phase>, events: Seq<RestoreEvent>, k: int)
    requires
        phases.len() == events.len() + 1,
        phases[0] == Phase::Start,
        forall|i: int| 0 <= i < events.len() ==> phase_step(phases[i], #[trigger] events[i], phases[i + 1]),
        0 <= k < phases.len(),
        phases[k] != Phase::Start,
    ensures
        exists|j: int| 0 <= j < k && clears_config(#[trigger] events[j]),
    decreases k,
{
    assert(phase_step(phases[k - 1], events[k - 1], phases[k]));
    if phases[k - 1] == Phase::Start {
        assert(clears_config(events[k - 1]));
    } else {
        lemma_cleared_before_extraction(phases, events, k - 1);
        let j = choose|j: int| 0 <= j < k - 1 && clears_config(#[trigger] events[j]);
        assert(clears_config(events[j]));
    }
}

} // verus!
