//! A dashboard over time: what holds after any run of events.

use vstd::prelude::*;

use crate::clock::Timestamp;
use crate::config::parsed;
use crate::dashboard::{AppModel, DaemonReport, Key, StartEvent, StopEvent};
use crate::output::{MAX_OUTPUT_LINES, OutputModel};
use crate::project::{ConfigModel, ProcessUsage};

verus! {

/// The state of the dashboard together with the records of what its projects have written.
#[verifier::ext_equal]
pub struct SessionModel {
    /// The state of the dashboard.
    pub app: AppModel,
    /// The records, one for every project.
    pub outputs: Seq<OutputModel>,
}

/// Something that happens to a dashboard.
pub enum Event {
    /// The daemons of an earlier dashboard were looked for.
    Discovered(Seq<Option<DaemonReport>>),
    /// It was looked up whether the dashboard was asked to close.
    ShutdownLookedUp(bool),
    /// The figures of the processes were read.
    Updated(Seq<Option<ProcessUsage>>),
    /// The screen was composed, with this many lines of output in a panel of this height.
    Composed(nat, u16),
    /// A key was pressed, with or without shift.
    Pressed(Key, bool),
    /// Something came of an action that starting a project takes.
    Started(int, StartEvent, Timestamp),
    /// Stopping a project was begun.
    StopBegun(int),
    /// Something came of an action that stopping a project takes.
    Stopped(int, StopEvent),
    /// The record of a project was cleared.
    Cleared(int),
    /// A project wrote a line to its standard output.
    WroteOutput(int, Seq<char>),
    /// A project wrote a line to its standard error stream.
    WroteError(int, Seq<char>),
    /// The configuration file was edited, and has this content now.
    Edited(Seq<char>),
}

/// An empty record for each of `n` projects.
pub open spec fn empty_records(n: nat) -> Seq<OutputModel> {
    Seq::new(n, |i: int| OutputModel::empty(MAX_OUTPUT_LINES as nat))
}

impl SessionModel {
    /// A dashboard that was just opened on the given projects.
    pub open spec fn opened(cs: Seq<ConfigModel>) -> SessionModel {
        SessionModel { app: AppModel::opened(cs), outputs: empty_records(cs.len()) }
    }

    /// Every project has a place for its child process and a record.
    pub open spec fn aligned(self) -> bool {
        &&& self.app.running_processes.len() == self.app.projects.len()
        &&& self.outputs.len() == self.app.projects.len()
    }

    /// The selection is a project.
    pub open spec fn on_project(self) -> bool {
        self.app.selected_index < self.app.projects.len()
    }

    /// Whether an event can happen in this state.
    pub open spec fn admits(self, event: Event) -> bool {
        match event {
            Event::Discovered(reports) => reports.len() == self.app.projects.len(),
            Event::Updated(usages) => usages.len() == self.app.projects.len(),
            Event::Pressed(key, shift) => self.app.takes_key(key, shift),
            Event::Started(index, _, _) => 0 <= index < self.app.projects.len(),
            Event::StopBegun(index) => 0 <= index,
            Event::Stopped(index, _) => 0 <= index < self.app.projects.len(),
            Event::Cleared(index) => 0 <= index < self.outputs.len(),
            Event::WroteOutput(index, _) => 0 <= index < self.outputs.len(),
            Event::WroteError(index, _) => 0 <= index < self.outputs.len(),
            _ => true,
        }
    }

    /// The state after an event.
    pub open spec fn after(self, event: Event) -> SessionModel {
        match event {
            Event::Discovered(reports) => self.with_app(self.app.with_daemons(reports)),
            Event::ShutdownLookedUp(requested) => self.with_app(
                self.app.after_shutdown_request(requested),
            ),
            Event::Updated(usages) => self.with_app(self.app.with_usages(usages)),
            Event::Composed(count, height) => self.with_app(
                self.app.with_scroll_clamped(count, height),
            ),
            Event::Pressed(key, shift) => self.with_app(self.app.after_key(key, shift)),
            Event::Started(index, e, now) => self.with_app(
                self.app.after_start_event(index, e, now),
            ),
            Event::StopBegun(index) => self.with_app(self.app.after_stop_begun(index)),
            Event::Stopped(index, e) => self.with_app(self.app.after_stop_event(index, e)),
            Event::Cleared(index) => self.with_record(
                index,
                OutputModel::empty(MAX_OUTPUT_LINES as nat),
            ),
            Event::WroteOutput(index, line) => self.with_record(
                index,
                self.outputs[index].with_stdout(line),
            ),
            Event::WroteError(index, line) => self.with_record(
                index,
                self.outputs[index].with_stderr(line),
            ),
            Event::Edited(content) => SessionModel {
                app: self.app.reloaded(parsed(content)),
                outputs: empty_records(parsed(content).len()),
            },
        }
    }

    /// The session with another state of the dashboard.
    pub open spec fn with_app(self, app: AppModel) -> SessionModel {
        SessionModel { app, ..self }
    }

    /// The session with another record for one project.
    pub open spec fn with_record(self, index: int, record: OutputModel) -> SessionModel {
        SessionModel { outputs: self.outputs.update(index, record), ..self }
    }

    /// The state after a run of events.
    pub open spec fn after_all(self, events: Seq<Event>) -> SessionModel
        decreases events.len(),
    {
        if events.len() == 0 {
            self
        } else {
            self.after_all(events.drop_last()).after(events.last())
        }
    }

    /// Whether a run of events can happen, one after the other.
    pub open spec fn admits_all(self, events: Seq<Event>) -> bool
        decreases events.len(),
    {
        events.len() > 0 ==> {
            &&& self.admits_all(events.drop_last())
            &&& self.after_all(events.drop_last()).admits(events.last())
        }
    }
}

/// Whether an event is not an edit that leaves no project.
pub open spec fn leaves_projects(event: Event) -> bool {
    event matches Event::Edited(content) ==> parsed(content).len() > 0
}

/// No event leaves a project without a place for its child process or without a record, nor takes
/// the selection off the projects, unless an edit leaves none.
proof fn lemma_event_keeps_alignment(s: SessionModel, event: Event)
    requires
        s.aligned(),
        s.admits(event),
    ensures
        s.after(event).aligned(),
        s.on_project() && leaves_projects(event) ==> s.after(event).on_project(),
{
}

/// However long a dashboard runs, every project keeps a place for its child process and a record;
/// and as long as no edit of the configuration file leaves it without projects, the selection
/// stays on a project.
pub proof fn lemma_session_stays_aligned(s: SessionModel, events: Seq<Event>)
    requires
        s.aligned(),
        s.admits_all(events),
    ensures
        s.after_all(events).aligned(),
        s.on_project() && (forall|i: int|
            0 <= i < events.len() ==> leaves_projects(#[trigger] events[i])) ==> s.after_all(
            events,
        ).on_project(),
    decreases events.len(),
{
    if events.len() > 0 {
        let before = events.drop_last();
        lemma_session_stays_aligned(s, before);
        lemma_event_keeps_alignment(s.after_all(before), events.last());
        assert(forall|i: int| 0 <= i < before.len() ==> #[trigger] before[i] == events[i]);
        if forall|i: int| 0 <= i < events.len() ==> leaves_projects(#[trigger] events[i]) {
            assert(leaves_projects(events[events.len() - 1]));
        }
    }
}

/// A dashboard that was just opened has a place for a child process and a record for every
/// project, and the selection on the first, where there is one.
pub proof fn lemma_session_opens_aligned(cs: Seq<ConfigModel>)
    ensures
        SessionModel::opened(cs).aligned(),
        cs.len() > 0 ==> SessionModel::opened(cs).on_project(),
{
}

/// However long a dashboard runs, no record exceeds its limit.
pub proof fn lemma_records_stay_bounded(s: SessionModel, events: Seq<Event>)
    requires
        s.aligned(),
        s.admits_all(events),
        forall|i: int| 0 <= i < s.outputs.len() ==> (#[trigger] s.outputs[i]).bounded(),
    ensures
        forall|i: int|
            0 <= i < s.after_all(events).outputs.len() ==> (#[trigger] s.after_all(
                events,
            ).outputs[i]).bounded(),
    decreases events.len(),
{
    if events.len() > 0 {
        lemma_records_stay_bounded(s, events.drop_last());
    }
}

} // verus!
