//! Projects: how they are configured, and what their process is doing.

use vstd::prelude::*;

use crate::clock::Timestamp;

verus! {

/// How a project is started.
#[derive(Debug, Clone)]
pub struct ProjectConfig {
    /// The name that the dashboard shows.
    pub name: String,
    /// The directory that the command runs in.
    pub path: String,
    /// The command line.
    pub command: String,
    /// Whether the command outlives the dashboard.
    pub daemon_mode: bool,
}

/// The contents of a [`ProjectConfig`].
#[verifier::ext_equal]
pub struct ConfigModel {
    /// See [`ProjectConfig::name`].
    pub name: Seq<char>,
    /// See [`ProjectConfig::path`].
    pub path: Seq<char>,
    /// See [`ProjectConfig::command`].
    pub command: Seq<char>,
    /// See [`ProjectConfig::daemon_mode`].
    pub daemon_mode: bool,
}

impl View for ProjectConfig {
    type V = ConfigModel;

    open spec fn view(&self) -> ConfigModel {
        ConfigModel {
            name: self.name@,
            path: self.path@,
            command: self.command@,
            daemon_mode: self.daemon_mode,
        }
    }
}

/// What the process of a project is doing.
#[derive(Debug, Clone)]
pub enum ProjectStatus {
    /// There is no process.
    Stopped,
    /// The process is a child of the dashboard.
    Running {
        /// The process id.
        pid: u32,
        /// When the process was started.
        start_time: Timestamp,
        /// The share of a processor that it takes, in percent with one decimal.
        cpu_usage: String,
        /// The memory that it takes, in bytes.
        memory_usage: u64,
    },
    /// The process runs on its own.
    Daemon {
        /// The process id.
        pid: u32,
        /// When the process was started.
        start_time: Timestamp,
        /// The share of a processor that it takes, in percent with one decimal.
        cpu_usage: String,
        /// The memory that it takes, in bytes.
        memory_usage: u64,
    },
    /// The last attempt to start or stop it failed.
    Error(String),
}

/// The contents of a [`ProjectStatus`].
#[verifier::ext_equal]
pub enum StatusModel {
    /// See [`ProjectStatus::Stopped`].
    Stopped,
    /// See [`ProjectStatus::Running`].
    Running { pid: u32, start_time: Timestamp, cpu_usage: Seq<char>, memory_usage: u64 },
    /// See [`ProjectStatus::Daemon`].
    Daemon { pid: u32, start_time: Timestamp, cpu_usage: Seq<char>, memory_usage: u64 },
    /// See [`ProjectStatus::Error`].
    Error(Seq<char>),
}

impl View for ProjectStatus {
    type V = StatusModel;

    open spec fn view(&self) -> StatusModel {
        match *self {
            ProjectStatus::Stopped => StatusModel::Stopped,
            ProjectStatus::Running { pid, start_time, cpu_usage, memory_usage } => {
                StatusModel::Running { pid, start_time, cpu_usage: cpu_usage@, memory_usage }
            },
            ProjectStatus::Daemon { pid, start_time, cpu_usage, memory_usage } => {
                StatusModel::Daemon { pid, start_time, cpu_usage: cpu_usage@, memory_usage }
            },
            ProjectStatus::Error(message) => StatusModel::Error(message@),
        }
    }
}

impl StatusModel {
    /// Whether there is a process, and which.
    pub open spec fn pid(self) -> Option<u32> {
        match self {
            StatusModel::Running { pid, .. } => Some(pid),
            StatusModel::Daemon { pid, .. } => Some(pid),
            _ => None,
        }
    }

    /// When the process was started, where there is one.
    pub open spec fn start_time(self) -> Option<Timestamp> {
        match self {
            StatusModel::Running { start_time, .. } => Some(start_time),
            StatusModel::Daemon { start_time, .. } => Some(start_time),
            _ => None,
        }
    }
}

/// A project of the dashboard.
#[derive(Debug, Clone)]
pub struct Project {
    /// How it is started.
    pub config: ProjectConfig,
    /// What its process is doing.
    pub status: ProjectStatus,
}

/// The contents of a [`Project`].
#[verifier::ext_equal]
pub struct ProjectModel {
    /// See [`Project::config`].
    pub config: ConfigModel,
    /// See [`Project::status`].
    pub status: StatusModel,
}

impl View for Project {
    type V = ProjectModel;

    open spec fn view(&self) -> ProjectModel {
        ProjectModel { config: self.config@, status: self.status@ }
    }
}

/// The contents of a list of projects.
pub open spec fn project_models(s: Seq<Project>) -> Seq<ProjectModel> {
    Seq::new(s.len(), |i: int| s[i]@)
}

/// The configurations of a list of projects.
pub open spec fn configs(s: Seq<ProjectModel>) -> Seq<ConfigModel> {
    Seq::new(s.len(), |i: int| s[i].config)
}

/// Projects with the given configurations and no process.
pub open spec fn stopped(s: Seq<ConfigModel>) -> Seq<ProjectModel> {
    Seq::new(s.len(), |i: int| ProjectModel { config: s[i], status: StatusModel::Stopped })
}

/// What a process takes, as the operating system reports it.
#[derive(Debug, Clone)]
pub struct ProcessUsage {
    /// The share of a processor, in percent with one decimal.
    pub cpu_usage: String,
    /// The memory, in bytes.
    pub memory_usage: u64,
}

/// What is remembered of a daemon, so that a later dashboard finds it again.
#[derive(Debug, Clone)]
pub struct DaemonInfo {
    /// The name of its project.
    pub project_name: String,
    /// The process id.
    pub pid: u32,
    /// When the process was started.
    pub start_time: Timestamp,
    /// The command line.
    pub command: String,
    /// The directory that the command runs in.
    pub working_dir: String,
}

/// The contents of a [`DaemonInfo`].
#[verifier::ext_equal]
pub struct DaemonModel {
    /// See [`DaemonInfo::project_name`].
    pub project_name: Seq<char>,
    /// See [`DaemonInfo::pid`].
    pub pid: u32,
    /// See [`DaemonInfo::start_time`].
    pub start_time: Timestamp,
    /// See [`DaemonInfo::command`].
    pub command: Seq<char>,
    /// See [`DaemonInfo::working_dir`].
    pub working_dir: Seq<char>,
}

impl View for DaemonInfo {
    type V = DaemonModel;

    open spec fn view(&self) -> DaemonModel {
        DaemonModel {
            project_name: self.project_name@,
            pid: self.pid,
            start_time: self.start_time,
            command: self.command@,
            working_dir: self.working_dir@,
        }
    }
}

} // verus!
