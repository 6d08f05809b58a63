//! The state of the dashboard, and how keys and processes change it.

use vstd::prelude::*;

use crate::clock::Timestamp;
use crate::config::{load_projects, parsed, save_projects_config, config_text};
use crate::output::{MAX_OUTPUT_LINES, OutputModel, ProcessOutput};
use crate::project::{ConfigModel, DaemonInfo, DaemonModel, ProcessUsage, Project};
use crate::project::{ProjectModel, ProjectStatus, StatusModel};
use crate::project::{configs, project_models, stopped};
use crate::text::{append_u64, chars_of, split_words, string_of};
use crate::text::{decimal, slices, texts, words};

verus! {

/// How long the figures of the processes stay as they are, in milliseconds.
pub const UPDATE_INTERVAL_MILLIS: u128 = 500;

/// The state of the dashboard.
#[derive(Debug)]
pub struct App {
    /// The projects, in the order of the configuration file.
    pub projects: Vec<Project>,
    /// Which project the keys act on.
    pub selected_index: usize,
    /// Whether the dashboard is about to close.
    pub should_quit: bool,
    /// Of which projects the dashboard holds the child process.
    pub running_processes: Vec<bool>,
    /// The first line of the output that is shown.
    pub output_scroll: usize,
    /// Whether the end of the output is kept in view.
    pub auto_scroll: bool,
    /// Whether the processes of the system are listed.
    pub show_system_processes: bool,
}

/// The contents of an [`App`].
#[verifier::ext_equal]
pub struct AppModel {
    /// See [`App::projects`].
    pub projects: Seq<ProjectModel>,
    /// See [`App::selected_index`].
    pub selected_index: usize,
    /// See [`App::should_quit`].
    pub should_quit: bool,
    /// See [`App::running_processes`].
    pub running_processes: Seq<bool>,
    /// See [`App::output_scroll`].
    pub output_scroll: usize,
    /// See [`App::auto_scroll`].
    pub auto_scroll: bool,
    /// See [`App::show_system_processes`].
    pub show_system_processes: bool,
}

impl View for App {
    type V = AppModel;

    open spec fn view(&self) -> AppModel {
        AppModel {
            projects: project_models(self.projects@),
            selected_index: self.selected_index,
            should_quit: self.should_quit,
            running_processes: self.running_processes@,
            output_scroll: self.output_scroll,
            auto_scroll: self.auto_scroll,
            show_system_processes: self.show_system_processes,
        }
    }
}

impl AppModel {
    /// The selection is a project, where there is one, and a child process is held for exactly
    /// the projects that are running.
    pub open spec fn valid(self) -> bool {
        &&& self.selected_index < self.projects.len() || self.selected_index == 0
        &&& self.running_processes.len() == self.projects.len()
        &&& forall|i: int|
            0 <= i < self.projects.len() ==> #[trigger] self.running_processes[i] == (
            self.projects[i].status is Running)
    }

    /// The state of a dashboard that was just opened on the given projects.
    pub open spec fn opened(cs: Seq<ConfigModel>) -> AppModel {
        AppModel {
            projects: stopped(cs),
            selected_index: 0,
            should_quit: false,
            running_processes: Seq::new(cs.len(), |i: int| false),
            output_scroll: 0,
            auto_scroll: true,
            show_system_processes: true,
        }
    }

    /// The state with another status for one project.
    pub open spec fn with_status(self, index: int, status: StatusModel) -> AppModel {
        AppModel {
            projects: self.projects.update(
                index,
                ProjectModel { status, ..self.projects[index] },
            ),
            ..self
        }
    }

    /// The state with the child process of one project held or not.
    pub open spec fn with_child(self, index: int, held: bool) -> AppModel {
        AppModel { running_processes: self.running_processes.update(index, held), ..self }
    }

    /// The state with the daemon mode of one project switched.
    pub open spec fn with_daemon_mode_switched(self, index: int) -> AppModel {
        let project = self.projects[index];
        let config = ConfigModel { daemon_mode: !project.config.daemon_mode, ..project.config };
        AppModel {
            projects: self.projects.update(index, ProjectModel { config, ..project }),
            ..self
        }
    }

    /// Which of the first `n` projects are running, in order.
    pub open spec fn running(self, n: int) -> Seq<usize>
        decreases n,
    {
        if n <= 0 {
            Seq::empty()
        } else if self.projects[n - 1].status is Running {
            self.running(n - 1).push((n - 1) as usize)
        } else {
            self.running(n - 1)
        }
    }

    /// The state after the configuration file was edited.
    pub open spec fn reloaded(self, cs: Seq<ConfigModel>) -> AppModel {
        AppModel {
            projects: stopped(cs),
            running_processes: Seq::new(cs.len(), |i: int| false),
            selected_index: if self.selected_index >= cs.len() {
                0
            } else {
                self.selected_index
            },
            ..self
        }
    }
}

/// A command line to run.
#[derive(Debug, Clone)]
pub struct LaunchPlan {
    /// The program.
    pub program: String,
    /// Its arguments.
    pub args: Vec<String>,
    /// The directory to run it in.
    pub working_dir: String,
    /// Whether it runs on its own, with its output thrown away, or as a child whose output is
    /// recorded.
    pub daemon: bool,
}

/// The contents of a [`LaunchPlan`].
#[verifier::ext_equal]
pub struct LaunchModel {
    /// See [`LaunchPlan::program`].
    pub program: Seq<char>,
    /// See [`LaunchPlan::args`].
    pub args: Seq<Seq<char>>,
    /// See [`LaunchPlan::working_dir`].
    pub working_dir: Seq<char>,
    /// See [`LaunchPlan::daemon`].
    pub daemon: bool,
}

impl View for LaunchPlan {
    type V = LaunchModel;

    open spec fn view(&self) -> LaunchModel {
        LaunchModel {
            program: self.program@,
            args: texts(self.args@),
            working_dir: self.working_dir@,
            daemon: self.daemon,
        }
    }
}

/// What starting a project runs: the words of its command, of which the first is the program.
/// An empty command is `ls`.
pub open spec fn launch(c: ConfigModel) -> LaunchModel {
    let ws = words(c.command);
    LaunchModel {
        program: if ws.len() == 0 {
            "ls"@
        } else {
            ws[0]
        },
        args: if ws.len() == 0 {
            Seq::empty()
        } else {
            ws.skip(1)
        },
        working_dir: c.path,
        daemon: c.daemon_mode,
    }
}

/// What is remembered of a daemon that was started for a project.
pub open spec fn remembered(c: ConfigModel, pid: u32, now: Timestamp) -> DaemonModel {
    DaemonModel {
        project_name: c.name,
        pid,
        start_time: now,
        command: c.command,
        working_dir: c.path,
    }
}

/// The status of a project whose process was just started as a child.
pub open spec fn started_running(pid: u32, now: Timestamp) -> StatusModel {
    StatusModel::Running { pid, start_time: now, cpu_usage: "0.0"@, memory_usage: 0 }
}

/// The status of a project whose process was just started as a daemon.
pub open spec fn started_daemon(pid: u32, now: Timestamp) -> StatusModel {
    StatusModel::Daemon { pid, start_time: now, cpu_usage: "0.0"@, memory_usage: 0 }
}

/// What came of an action that starting a project takes.
#[derive(Debug, Clone)]
pub enum StartEvent {
    /// The command was started as a process with this id.
    Spawned(u32),
    /// The command could not be started, for this reason.
    SpawnFailed(String),
    /// The daemon with this process id is remembered.
    Remembered(u32),
    /// The daemon could not be remembered, for this reason.
    NotRemembered(String),
}

/// What starting a project takes after its command was run.
#[derive(Debug, Clone)]
pub enum StartAction {
    /// Remember a daemon.
    Remember(DaemonInfo),
    /// Nothing more.
    Finished,
}

/// What came of an action that stopping a project takes.
#[derive(Debug, Clone)]
pub enum StopEvent {
    /// The daemon was told to stop.
    Signalled,
    /// The daemon could not be told to stop, for this reason.
    SignalFailed(String),
    /// The daemon is no longer remembered, as far as that could be done.
    Forgotten,
    /// The child process has ended.
    Terminated,
}

/// What stopping a project takes.
#[derive(Debug, Clone)]
pub enum StopAction {
    /// Nothing more; what the project wrote is kept.
    Nothing,
    /// Run `kill` with these arguments.
    SignalDaemon {
        /// The arguments of `kill`.
        args: Vec<String>,
    },
    /// Forget the daemon of the project with this name.
    ForgetDaemon {
        /// The name under which the daemon is remembered.
        project_name: String,
    },
    /// Terminate the child process.
    TerminateChild,
    /// Nothing more; this record takes the place of what the project wrote.
    Finish(ProcessOutput),
}

impl AppModel {
    /// The state after something came of an action that starting a project takes.
    pub open spec fn after_start_event(
        self,
        index: int,
        event: StartEvent,
        now: Timestamp,
    ) -> AppModel {
        let daemon_mode = self.projects[index].config.daemon_mode;
        match event {
            StartEvent::Spawned(pid) => if daemon_mode {
                self
            } else {
                self.with_child(index, true).with_status(index, started_running(pid, now))
            },
            StartEvent::SpawnFailed(error) => self.with_status(
                index,
                StatusModel::Error(
                    (if daemon_mode {
                        "Failed to start daemon: "@
                    } else {
                        "Failed to start: "@
                    }) + error@,
                ),
            ),
            StartEvent::Remembered(pid) => self.with_status(index, started_daemon(pid, now)),
            StartEvent::NotRemembered(error) => self.with_status(
                index,
                StatusModel::Error("Failed to save daemon info: "@ + error@),
            ),
        }
    }

    /// The state after stopping a project was begun: a child process that is to be terminated is
    /// no longer held, and a project without a process is stopped.
    pub open spec fn after_stop_begun(self, index: int) -> AppModel {
        if index >= self.projects.len() {
            self
        } else {
            match self.projects[index].status {
                StatusModel::Daemon { .. } => self,
                StatusModel::Running { .. } if self.running_processes[index] => self.with_child(
                    index,
                    false,
                ),
                _ => self.with_status(index, StatusModel::Stopped),
            }
        }
    }

    /// The state after projects that run as children were stopped one after the other.
    pub open spec fn after_children_stopped(self, list: Seq<usize>) -> AppModel
        decreases list.len(),
    {
        if list.len() == 0 {
            self
        } else {
            self.after_children_stopped(list.drop_last()).after_stop_begun(
                list.last() as int,
            ).after_stop_event(list.last() as int, StopEvent::Terminated)
        }
    }

    /// The state after something came of an action that stopping a project takes.
    pub open spec fn after_stop_event(self, index: int, event: StopEvent) -> AppModel {
        match event {
            StopEvent::Signalled => self,
            StopEvent::SignalFailed(error) => self.with_status(
                index,
                StatusModel::Error("Failed to stop daemon: "@ + error@),
            ),
            StopEvent::Forgotten => self.with_status(index, StatusModel::Stopped),
            StopEvent::Terminated => self.with_status(index, StatusModel::Stopped),
        }
    }
}

/// What a daemon's file and the operating system say of the daemon of a project.
#[derive(Debug, Clone)]
pub struct DaemonReport {
    /// What is remembered of it.
    pub info: DaemonInfo,
    /// What its process takes, where the process is still there.
    pub usage: Option<ProcessUsage>,
}

/// The status of a project with the given status, once its daemon was looked for.
pub open spec fn discovered(status: StatusModel, report: Option<DaemonReport>) -> StatusModel {
    match report {
        Some(DaemonReport { info, usage: Some(usage) }) => StatusModel::Daemon {
            pid: info.pid,
            start_time: info.start_time,
            cpu_usage: usage.cpu_usage@,
            memory_usage: usage.memory_usage,
        },
        _ => status,
    }
}

/// The names of the first `n` projects whose daemon is remembered and gone.
pub open spec fn gone(
    projects: Seq<ProjectModel>,
    reports: Seq<Option<DaemonReport>>,
    n: int,
) -> Seq<Seq<char>>
    decreases n,
{
    if n <= 0 {
        Seq::empty()
    } else {
        let before = gone(projects, reports, n - 1);
        match reports[n - 1] {
            Some(DaemonReport { info: _, usage: None }) => before.push(
                projects[n - 1].config.name,
            ),
            _ => before,
        }
    }
}

/// The status of a project with the given status, once its process was looked for.
pub open spec fn updated(status: StatusModel, usage: Option<ProcessUsage>) -> StatusModel {
    match (status, usage) {
        (StatusModel::Running { pid, start_time, .. }, Some(u)) => StatusModel::Running {
            pid,
            start_time,
            cpu_usage: u.cpu_usage@,
            memory_usage: u.memory_usage,
        },
        (StatusModel::Daemon { pid, start_time, .. }, Some(u)) => StatusModel::Daemon {
            pid,
            start_time,
            cpu_usage: u.cpu_usage@,
            memory_usage: u.memory_usage,
        },
        (StatusModel::Running { .. }, None) => StatusModel::Stopped,
        (StatusModel::Daemon { .. }, None) => StatusModel::Stopped,
        _ => status,
    }
}

impl AppModel {
    /// The state once the daemons of all projects were looked for.
    pub open spec fn with_daemons(self, reports: Seq<Option<DaemonReport>>) -> AppModel {
        AppModel {
            projects: Seq::new(
                self.projects.len(),
                |i: int|
                    ProjectModel {
                        status: discovered(self.projects[i].status, reports[i]),
                        ..self.projects[i]
                    },
            ),
            ..self
        }
    }

    /// The state once the processes of all projects were looked for: a child that is gone is no
    /// longer held.
    pub open spec fn with_usages(self, usages: Seq<Option<ProcessUsage>>) -> AppModel {
        AppModel {
            projects: Seq::new(
                self.projects.len(),
                |i: int|
                    ProjectModel {
                        status: updated(self.projects[i].status, usages[i]),
                        ..self.projects[i]
                    },
            ),
            running_processes: Seq::new(
                self.running_processes.len(),
                |i: int|
                    self.running_processes[i] && !(self.projects[i].status is Running
                        && usages[i] is None),
            ),
            ..self
        }
    }
}

/// A key that was pressed.
#[derive(Debug, Clone, Copy, PartialEq, Eq)]
pub enum Key {
    /// A character.
    Char(char),
    /// The arrow up.
    Up,
    /// The arrow down.
    Down,
    /// Page up.
    PageUp,
    /// Page down.
    PageDown,
    /// End.
    End,
    /// Any other key.
    Other,
}

/// What a key asks for beyond a change of the state.
#[derive(Debug, Clone, Copy, PartialEq, Eq)]
pub enum KeyAction {
    /// Nothing.
    Nothing,
    /// Write the configuration file.
    SaveConfig,
    /// Start a project.
    Start(usize),
    /// Stop a project.
    Stop(usize),
    /// Open the configuration file in an editor.
    EditConfig,
}

impl AppModel {
    /// The state with the output scrolled up by a line, where there is one above.
    pub open spec fn scrolled_up(self) -> AppModel {
        if self.output_scroll > 0 {
            AppModel {
                output_scroll: (self.output_scroll - 1) as usize,
                auto_scroll: false,
                ..self
            }
        } else {
            self
        }
    }

    /// The state with the output scrolled down by a line.
    pub open spec fn scrolled_down(self) -> AppModel {
        AppModel { output_scroll: (self.output_scroll + 1) as usize, auto_scroll: false, ..self }
    }

    /// The state that keeps the end of the output in view.
    pub open spec fn scrolled_to_bottom(self) -> AppModel {
        AppModel { output_scroll: 0, auto_scroll: true, ..self }
    }

    /// The state with keeping the end of the output in view switched on or off.
    pub open spec fn auto_scroll_toggled(self) -> AppModel {
        if self.auto_scroll {
            AppModel { auto_scroll: false, ..self }
        } else {
            self.scrolled_to_bottom()
        }
    }

    /// The state with the list of the processes of the system shown or hidden.
    pub open spec fn system_processes_toggled(self) -> AppModel {
        AppModel { show_system_processes: !self.show_system_processes, ..self }
    }

    /// The keys that can be pressed: there has to be a project to move down from or to start, and
    /// scrolling down must not go beyond what a number can hold.
    pub open spec fn takes_key(self, key: Key, shift: bool) -> bool {
        &&& key == Key::Down && !shift ==> self.projects.len() > 0
        &&& key == Key::Down && shift ==> self.output_scroll < usize::MAX
        &&& key == Key::PageDown ==> self.output_scroll < usize::MAX
        &&& key == Key::Char(' ') ==> self.selected_index < self.projects.len()
    }

    /// The state after a key.
    pub open spec fn after_key(self, key: Key, shift: bool) -> AppModel {
        match key {
            Key::Char('q') => AppModel { should_quit: true, ..self },
            Key::Char('a') => self.auto_scroll_toggled(),
            Key::Char('p') => self.system_processes_toggled(),
            Key::Char('d') => if self.selected_index < self.projects.len() {
                self.with_daemon_mode_switched(self.selected_index as int)
            } else {
                self
            },
            Key::Up => if shift {
                self.scrolled_up()
            } else if self.selected_index > 0 {
                AppModel { selected_index: (self.selected_index - 1) as usize, ..self }
            } else {
                self
            },
            Key::Down => if shift {
                self.scrolled_down()
            } else if self.selected_index < self.projects.len() - 1 {
                AppModel { selected_index: (self.selected_index + 1) as usize, ..self }
            } else {
                self
            },
            Key::PageUp => self.scrolled_up(),
            Key::PageDown => self.scrolled_down(),
            Key::End => self.scrolled_to_bottom(),
            _ => self,
        }
    }

    /// The state after it was looked up whether the dashboard was asked to close.
    pub open spec fn after_shutdown_request(self, requested: bool) -> AppModel {
        AppModel { should_quit: self.should_quit || requested, ..self }
    }

    /// What a key asks for beyond a change of the state.
    pub open spec fn action_of_key(self, key: Key) -> KeyAction {
        match key {
            Key::Char('d') => if self.selected_index < self.projects.len() {
                KeyAction::SaveConfig
            } else {
                KeyAction::Nothing
            },
            Key::Char(' ') => if self.projects[self.selected_index as int].status.pid() is Some {
                KeyAction::Stop(self.selected_index)
            } else {
                KeyAction::Start(self.selected_index)
            },
            Key::Char('e') => KeyAction::EditConfig,
            _ => KeyAction::Nothing,
        }
    }
}

impl App {
    /// Opens the dashboard on the configuration file with the given content, or on no projects
    /// where it could not be read.
    pub fn new(config: Option<&str>) -> (r: App)
        ensures
            r@ == AppModel::opened(
                match config {
                    Some(content) => parsed(content@),
                    None => Seq::empty(),
                },
            ),
            r@.valid(),
    {
        let projects = match config {
            Some(content) => load_projects(content),
            None => Vec::new(),
        };
        let ghost cs = match config {
            Some(content) => parsed(content@),
            None => Seq::empty(),
        };
        assert(project_models(projects@) =~= stopped(cs));
        assert(projects@.len() == stopped(cs).len());
        let running_processes = none_held(projects.len());
        let r = App {
            projects,
            selected_index: 0,
            should_quit: false,
            running_processes,
            output_scroll: 0,
            auto_scroll: true,
            show_system_processes: true,
        };
        assert(r@ =~= AppModel::opened(cs));
        r
    }

    /// An empty record of output for every project.
    pub fn new_outputs(&self) -> (r: Vec<ProcessOutput>)
        ensures
            r@.len() == self.projects@.len(),
            forall|i: int| 0 <= i < r@.len() ==> (#[trigger] r@[i])@ == OutputModel::empty(100),
    {
        let mut r: Vec<ProcessOutput> = Vec::new();
        while r.len() < self.projects.len()
            invariant
                r@.len() <= self.projects@.len(),
                forall|i: int|
                    0 <= i < r@.len() ==> (#[trigger] r@[i])@ == OutputModel::empty(
                        MAX_OUTPUT_LINES as nat,
                    ),
            decreases self.projects@.len() - r@.len(),
        {
            r.push(ProcessOutput::new(MAX_OUTPUT_LINES));
        }
        r
    }

    /// Takes over the projects of an edited configuration file.
    pub fn config_edited(&mut self, content: &str)
        ensures
            final(self)@ == old(self)@.reloaded(parsed(content@)),
            final(self)@.valid(),
    {
        let ghost before = self@;
        let ghost cs = parsed(content@);
        self.projects = load_projects(content);
        assert(project_models(self.projects@).len() == stopped(cs).len());
        self.running_processes = none_held(self.projects.len());
        if self.selected_index >= self.projects.len() {
            self.selected_index = 0;
        }
        assert(self@ =~= before.reloaded(cs));
    }

    /// Changes the status of one project.
    fn set_status(&mut self, index: usize, status: ProjectStatus)
        requires
            index < old(self).projects@.len(),
        ensures
            final(self)@ == old(self)@.with_status(index as int, status@),
            final(self).projects@.len() == old(self).projects@.len(),
    {
        let ghost before = self@;
        self.projects[index].status = status;
        assert(self@ =~= before.with_status(index as int, status@));
    }

    /// Settles what the daemons of an earlier dashboard are doing, and gives the names of those
    /// that are gone and are to be forgotten.
    pub fn discover_daemons(&mut self, reports: &Vec<Option<DaemonReport>>) -> (r: Vec<String>)
        requires
            reports@.len() == old(self).projects@.len(),
        ensures
            final(self)@ == old(self)@.with_daemons(reports@),
            texts(r@) == gone(old(self)@.projects, reports@, reports@.len() as int),
    {
        let ghost before = self@;
        let mut names: Vec<String> = Vec::new();
        let mut i: usize = 0;
        assert(texts(names@) =~= Seq::empty());
        while i < reports.len()
            invariant
                i <= reports@.len(),
                reports@.len() == before.projects.len(),
                self@ == (AppModel { projects: self@.projects, ..before }),
                self.projects@.len() == before.projects.len(),
                forall|k: int|
                    0 <= k < self@.projects.len() ==> #[trigger] self@.projects[k] == if k < i {
                        before.with_daemons(reports@).projects[k]
                    } else {
                        before.projects[k]
                    },
                texts(names@) == gone(before.projects, reports@, i as int),
            decreases reports@.len() - i,
        {
            let ghost projects = self@.projects;
            assert(projects[i as int] == before.projects[i as int]);
            match &reports[i] {
                Some(report) => {
                    match &report.usage {
                        Some(usage) => {
                            self.set_status(
                                i,
                                ProjectStatus::Daemon {
                                    pid: report.info.pid,
                                    start_time: report.info.start_time,
                                    cpu_usage: usage.cpu_usage.clone(),
                                    memory_usage: usage.memory_usage,
                                },
                            );
                        },
                        None => {
                            let ghost known = texts(names@);
                            let name = self.projects[i].config.name.clone();
                            names.push(name);
                            assert(texts(names@) =~= known.push(before.projects[i as int].config.name));
                        },
                    }
                },
                None => {},
            }
            i += 1;
        }
        assert(self@ =~= before.with_daemons(reports@));
        names
    }

    /// Whether the figures of the processes are old enough to be read again.
    pub fn needs_update(elapsed_millis: u128) -> (r: bool)
        ensures
            r == (elapsed_millis >= 500),
    {
        elapsed_millis >= UPDATE_INTERVAL_MILLIS
    }

    /// The process of every project that has one.
    pub fn tracked_pids(&self) -> (r: Vec<Option<u32>>)
        ensures
            r@.len() == self@.projects.len(),
            forall|i: int| 0 <= i < r@.len() ==> #[trigger] r@[i] == self@.projects[i].status.pid(),
    {
        let mut r: Vec<Option<u32>> = Vec::new();
        while r.len() < self.projects.len()
            invariant
                r@.len() <= self.projects@.len(),
                forall|i: int|
                    0 <= i < r@.len() ==> #[trigger] r@[i] == self@.projects[i].status.pid(),
            decreases self.projects@.len() - r@.len(),
        {
            let pid = match &self.projects[r.len()].status {
                ProjectStatus::Running { pid, .. } => Some(*pid),
                ProjectStatus::Daemon { pid, .. } => Some(*pid),
                _ => None,
            };
            r.push(pid);
        }
        r
    }

    /// Takes over the figures of the processes, given for every project; a process without
    /// figures has ended.
    pub fn update_process_info(&mut self, usages: &Vec<Option<ProcessUsage>>)
        requires
            usages@.len() == old(self).projects@.len(),
            old(self).running_processes@.len() == old(self).projects@.len(),
        ensures
            final(self)@ == old(self)@.with_usages(usages@),
            old(self)@.valid() ==> final(self)@.valid(),
    {
        let ghost before = self@;
        let ghost after = before.with_usages(usages@);
        let mut i: usize = 0;
        while i < usages.len()
            invariant
                i <= usages@.len(),
                usages@.len() == before.projects.len(),
                before.running_processes.len() == before.projects.len(),
                after == before.with_usages(usages@),
                self@ == (AppModel {
                    projects: self@.projects,
                    running_processes: self@.running_processes,
                    ..before
                }),
                self.projects@.len() == before.projects.len(),
                self.running_processes@.len() == before.projects.len(),
                forall|k: int|
                    0 <= k < self@.projects.len() ==> #[trigger] self@.projects[k] == if k < i {
                        after.projects[k]
                    } else {
                        before.projects[k]
                    },
                forall|k: int|
                    0 <= k < self@.projects.len() ==> #[trigger] self.running_processes@[k] == if k
                        < i {
                        after.running_processes[k]
                    } else {
                        before.running_processes[k]
                    },
            decreases usages@.len() - i,
        {
            let ghost projects = self@.projects;
            assert(projects[i as int] == before.projects[i as int]);
            assert(self.running_processes@[i as int] == before.running_processes[i as int]);
            match &self.projects[i].status {
                ProjectStatus::Running { pid, start_time, .. } => {
                    match &usages[i] {
                        Some(usage) => {
                            let status = ProjectStatus::Running {
                                pid: *pid,
                                start_time: *start_time,
                                cpu_usage: usage.cpu_usage.clone(),
                                memory_usage: usage.memory_usage,
                            };
                            self.set_status(i, status);
                        },
                        None => {
                            self.set_status(i, ProjectStatus::Stopped);
                            self.running_processes[i] = false;
                        },
                    }
                },
                ProjectStatus::Daemon { pid, start_time, .. } => {
                    match &usages[i] {
                        Some(usage) => {
                            let status = ProjectStatus::Daemon {
                                pid: *pid,
                                start_time: *start_time,
                                cpu_usage: usage.cpu_usage.clone(),
                                memory_usage: usage.memory_usage,
                            };
                            self.set_status(i, status);
                        },
                        None => {
                            self.set_status(i, ProjectStatus::Stopped);
                        },
                    }
                },
                _ => {},
            }
            i += 1;
        }
        assert(self@ =~= after);
    }

    /// What starting a project runs, where there is such a project.
    pub fn start_project(&self, index: usize) -> (r: Option<LaunchPlan>)
        ensures
            r is Some <==> index < self@.projects.len(),
            r matches Some(plan) ==> plan@ == launch(self@.projects[index as int].config),
    {
        if index >= self.projects.len() {
            return None;
        }
        let config = &self.projects[index].config;
        let chars = chars_of(config.command.as_str());
        let parts = split_words(chars.as_slice());
        let ghost ws = words(config.command@);
        let mut args: Vec<String> = Vec::new();
        if parts.len() == 0 {
            let plan = LaunchPlan {
                program: "ls".to_string(),
                args,
                working_dir: config.path.clone(),
                daemon: config.daemon_mode,
            };
            assert(ws.len() == 0);
            assert(plan@ =~= launch(config@));
            return Some(plan);
        }
        let program = string_of(parts[0]);
        assert(slices(parts@)[0] == program@);
        let mut i: usize = 1;
        while i < parts.len()
            invariant
                1 <= i <= parts@.len(),
                texts(args@) == slices(parts@).subrange(1, i as int),
            decreases parts@.len() - i,
        {
            let ghost before = texts(args@);
            let arg = string_of(parts[i]);
            args.push(arg);
            assert(texts(args@) =~= before.push(arg@));
            assert(slices(parts@)[i as int] == arg@);
            assert(slices(parts@).subrange(1, i + 1) =~= before.push(arg@));
            i += 1;
        }
        assert(slices(parts@).subrange(1, i as int) =~= ws.skip(1));
        let plan = LaunchPlan {
            program,
            args,
            working_dir: config.path.clone(),
            daemon: config.daemon_mode,
        };
        assert(plan@ =~= launch(config@));
        Some(plan)
    }

    /// Goes on with starting a project after something came of the last action.
    pub fn continue_start(&mut self, index: usize, event: StartEvent, now: Timestamp) -> (r:
        StartAction)
        requires
            index < old(self).projects@.len(),
            old(self).running_processes@.len() == old(self).projects@.len(),
        ensures
            final(self)@ == old(self)@.after_start_event(index as int, event, now),
            match event {
                StartEvent::Spawned(pid) => if old(self)@.projects[index as int].config.daemon_mode {
                    r matches StartAction::Remember(info) && info@ == remembered(
                        old(self)@.projects[index as int].config,
                        pid,
                        now,
                    )
                } else {
                    r is Finished
                },
                _ => r is Finished,
            },
            old(self)@.valid() && !(old(self)@.projects[index as int].status is Running)
                ==> final(self)@.valid(),
    {
        match event {
            StartEvent::Spawned(pid) => {
                let config = &self.projects[index].config;
                if config.daemon_mode {
                    let info = DaemonInfo {
                        project_name: config.name.clone(),
                        pid,
                        start_time: now,
                        command: config.command.clone(),
                        working_dir: config.path.clone(),
                    };
                    assert(info@ =~= remembered(config@, pid, now));
                    StartAction::Remember(info)
                } else {
                    let ghost before = self@;
                    self.running_processes[index] = true;
                    assert(self@ =~= before.with_child(index as int, true));
                    self.set_status(
                        index,
                        ProjectStatus::Running {
                            pid,
                            start_time: now,
                            cpu_usage: "0.0".to_string(),
                            memory_usage: 0,
                        },
                    );
                    StartAction::Finished
                }
            },
            StartEvent::SpawnFailed(error) => {
                let mut message = if self.projects[index].config.daemon_mode {
                    "Failed to start daemon: ".to_string()
                } else {
                    "Failed to start: ".to_string()
                };
                message.append(error.as_str());
                self.set_status(index, ProjectStatus::Error(message));
                StartAction::Finished
            },
            StartEvent::Remembered(pid) => {
                self.set_status(
                    index,
                    ProjectStatus::Daemon {
                        pid,
                        start_time: now,
                        cpu_usage: "0.0".to_string(),
                        memory_usage: 0,
                    },
                );
                StartAction::Finished
            },
            StartEvent::NotRemembered(error) => {
                let mut message = "Failed to save daemon info: ".to_string();
                message.append(error.as_str());
                self.set_status(index, ProjectStatus::Error(message));
                StartAction::Finished
            },
        }
    }

    /// Begins to stop a project. A child process that is to be terminated is no longer held; a
    /// project without a process is stopped at once.
    pub fn stop_project(&mut self, index: usize) -> (r: StopAction)
        requires
            old(self).running_processes@.len() == old(self).projects@.len(),
        ensures
            final(self)@ == old(self)@.after_stop_begun(index as int),
            index >= old(self)@.projects.len() ==> r is Nothing,
            index < old(self)@.projects.len() ==> match old(self)@.projects[index as int].status {
                StatusModel::Daemon { pid, .. } => {
                    &&& r matches StopAction::SignalDaemon { args }
                    &&& texts(args@) == seq!["-TERM"@, decimal(pid as int)]
                },
                StatusModel::Running { .. } if old(self)@.running_processes[index as int] => {
                    r is TerminateChild
                },
                _ => {
                    &&& r matches StopAction::Finish(record)
                    &&& record@ == OutputModel::empty(100)
                },
            },
    {
        if index >= self.projects.len() {
            return StopAction::Nothing;
        }
        let ghost before = self@;
        match &self.projects[index].status {
            ProjectStatus::Daemon { pid, .. } => {
                let mut id = String::new();
                append_u64(&mut id, *pid as u64);
                assert(id@ =~= decimal(*pid as int));
                let mut args: Vec<String> = Vec::new();
                args.push("-TERM".to_string());
                args.push(id);
                assert(texts(args@) =~= seq!["-TERM"@, decimal(*pid as int)]);
                return StopAction::SignalDaemon { args };
            },
            ProjectStatus::Running { .. } => {
                if self.running_processes[index] {
                    self.running_processes[index] = false;
                    assert(self@ =~= before.with_child(index as int, false));
                    return StopAction::TerminateChild;
                }
            },
            _ => {},
        }
        self.set_status(index, ProjectStatus::Stopped);
        StopAction::Finish(ProcessOutput::new(MAX_OUTPUT_LINES))
    }

    /// Goes on with stopping a project after something came of the last action.
    pub fn continue_stop(&mut self, index: usize, event: StopEvent) -> (r: StopAction)
        requires
            index < old(self).projects@.len(),
        ensures
            final(self)@ == old(self)@.after_stop_event(index as int, event),
            match event {
                StopEvent::Signalled => r matches StopAction::ForgetDaemon { project_name }
                    && project_name@ == old(self)@.projects[index as int].config.name,
                StopEvent::SignalFailed(_) => r is Nothing,
                StopEvent::Forgotten => r matches StopAction::Finish(record) && record@
                    == OutputModel::empty(100),
                StopEvent::Terminated => r matches StopAction::Finish(record) && record@
                    == OutputModel::empty(100),
            },
    {
        match event {
            StopEvent::Signalled => {
                StopAction::ForgetDaemon { project_name: self.projects[index].config.name.clone() }
            },
            StopEvent::SignalFailed(error) => {
                let mut message = "Failed to stop daemon: ".to_string();
                message.append(error.as_str());
                self.set_status(index, ProjectStatus::Error(message));
                StopAction::Nothing
            },
            StopEvent::Forgotten => {
                self.set_status(index, ProjectStatus::Stopped);
                StopAction::Finish(ProcessOutput::new(MAX_OUTPUT_LINES))
            },
            StopEvent::Terminated => {
                self.set_status(index, ProjectStatus::Stopped);
                StopAction::Finish(ProcessOutput::new(MAX_OUTPUT_LINES))
            },
        }
    }

    /// The projects that are to be stopped when the dashboard closes, in order: all that are
    /// running as its children. Daemons go on without it.
    pub fn stop_all_projects(&self) -> (r: Vec<usize>)
        ensures
            r@ == self@.running(self@.projects.len() as int),
    {
        let mut r: Vec<usize> = Vec::new();
        let mut i: usize = 0;
        while i < self.projects.len()
            invariant
                i <= self.projects@.len(),
                r@ == self@.running(i as int),
            decreases self.projects@.len() - i,
        {
            match &self.projects[i].status {
                ProjectStatus::Running { .. } => r.push(i),
                _ => {},
            }
            i += 1;
        }
        r
    }

    /// Scrolls the output up by a line, where there is one above.
    pub fn scroll_output_up(&mut self)
        ensures
            final(self)@ == old(self)@.scrolled_up(),
    {
        if self.output_scroll > 0 {
            self.output_scroll -= 1;
            self.auto_scroll = false;
        }
    }

    /// Scrolls the output down by a line.
    pub fn scroll_output_down(&mut self)
        requires
            old(self).output_scroll < usize::MAX,
        ensures
            final(self)@ == old(self)@.scrolled_down(),
    {
        self.output_scroll += 1;
        self.auto_scroll = false;
    }

    /// Keeps the end of the output in view.
    pub fn scroll_output_to_bottom(&mut self)
        ensures
            final(self)@ == old(self)@.scrolled_to_bottom(),
    {
        self.auto_scroll = true;
        self.output_scroll = 0;
    }

    /// Switches keeping the end of the output in view on or off.
    pub fn toggle_auto_scroll(&mut self)
        ensures
            final(self)@ == old(self)@.auto_scroll_toggled(),
    {
        self.auto_scroll = !self.auto_scroll;
        if self.auto_scroll {
            self.output_scroll = 0;
        }
    }

    /// Shows or hides the list of the processes of the system.
    pub fn toggle_system_processes(&mut self)
        ensures
            final(self)@ == old(self)@.system_processes_toggled(),
    {
        self.show_system_processes = !self.show_system_processes;
    }

    /// Whether a key can be pressed in this state.
    pub fn can_take_key(&self, key: Key, shift: bool) -> (r: bool)
        ensures
            r == self@.takes_key(key, shift),
    {
        match key {
            Key::Down => if shift {
                self.output_scroll < usize::MAX
            } else {
                self.projects.len() > 0
            },
            Key::PageDown => self.output_scroll < usize::MAX,
            Key::Char(' ') => self.selected_index < self.projects.len(),
            _ => true,
        }
    }

    /// Acts on a key.
    pub fn handle_key(&mut self, key: Key, shift: bool) -> (r: KeyAction)
        requires
            old(self)@.takes_key(key, shift),
        ensures
            final(self)@ == old(self)@.after_key(key, shift),
            r == old(self)@.action_of_key(key),
    {
        match key {
            Key::Char('q') => {
                self.should_quit = true;
                KeyAction::Nothing
            },
            Key::Up => {
                if shift {
                    self.scroll_output_up();
                } else if self.selected_index > 0 {
                    self.selected_index -= 1;
                }
                KeyAction::Nothing
            },
            Key::Down => {
                if shift {
                    self.scroll_output_down();
                } else if self.selected_index < self.projects.len() - 1 {
                    self.selected_index += 1;
                }
                KeyAction::Nothing
            },
            Key::PageUp => {
                self.scroll_output_up();
                KeyAction::Nothing
            },
            Key::PageDown => {
                self.scroll_output_down();
                KeyAction::Nothing
            },
            Key::End => {
                self.scroll_output_to_bottom();
                KeyAction::Nothing
            },
            Key::Char('a') => {
                self.toggle_auto_scroll();
                KeyAction::Nothing
            },
            Key::Char('p') => {
                self.toggle_system_processes();
                KeyAction::Nothing
            },
            Key::Char('d') => {
                if self.selected_index < self.projects.len() {
                    let ghost before = self@;
                    let index = self.selected_index;
                    let mode = self.projects[index].config.daemon_mode;
                    self.projects[index].config.daemon_mode = !mode;
                    assert(self@ =~= before.with_daemon_mode_switched(index as int));
                    KeyAction::SaveConfig
                } else {
                    KeyAction::Nothing
                }
            },
            Key::Char(' ') => {
                match &self.projects[self.selected_index].status {
                    ProjectStatus::Running { .. } => KeyAction::Stop(self.selected_index),
                    ProjectStatus::Daemon { .. } => KeyAction::Stop(self.selected_index),
                    _ => KeyAction::Start(self.selected_index),
                }
            },
            Key::Char('e') => KeyAction::EditConfig,
            _ => KeyAction::Nothing,
        }
    }

    /// Takes note of whether the dashboard was asked to close.
    pub fn note_shutdown(&mut self, requested: bool)
        ensures
            final(self)@ == old(self)@.after_shutdown_request(requested),
    {
        if requested {
            self.should_quit = true;
        }
    }

    /// The configuration file for the projects as they are.
    pub fn save_projects_config(&self) -> (r: String)
        ensures
            r@ == config_text(configs(self@.projects)),
    {
        save_projects_config(&self.projects)
    }
}

/// `n` times false.
fn none_held(n: usize) -> (r: Vec<bool>)
    ensures
        r@ == Seq::new(n as nat, |i: int| false),
{
    let mut r: Vec<bool> = Vec::new();
    while r.len() < n
        invariant
            r@.len() <= n,
            forall|i: int| 0 <= i < r@.len() ==> !r@[i],
        decreases n - r@.len(),
    {
        r.push(false);
    }
    assert(r@ =~= Seq::new(n as nat, |i: int| false));
    r
}

} // verus!
