//! What the contents of the library's types are, told field by field.

use vstd::prelude::*;

use crate::dashboard::{App, LaunchPlan};
use crate::output::ProcessOutput;
use crate::processes::{SystemProcess, process_models};
use crate::project::{DaemonInfo, Project, ProjectConfig, ProjectModel, ProjectStatus, StatusModel};
use crate::project::{configs, project_models};
use crate::screen::{ListEntry, entry_models, record_model};
use crate::text::{slices, texts};

verus! {

/// The contents of a project are those of all its fields.
pub proof fn lemma_project_contents(c: ProjectConfig, p: Project, info: DaemonInfo)
    ensures
        c@.name == c.name@ && c@.path == c.path@ && c@.command == c.command@,
        c@.daemon_mode == c.daemon_mode,
        p@.config == p.config@ && p@.status == p.status@,
        info@.project_name == info.project_name@ && info@.pid == info.pid,
        info@.start_time == info.start_time && info@.command == info.command@,
        info@.working_dir == info.working_dir@,
{
}

/// The contents of a status are of its kind, with all its figures.
pub proof fn lemma_status_contents(s: ProjectStatus)
    ensures
        match s {
            ProjectStatus::Stopped => s@ is Stopped,
            ProjectStatus::Running { pid, start_time, cpu_usage, memory_usage } => s@ == (
            StatusModel::Running { pid, start_time, cpu_usage: cpu_usage@, memory_usage }),
            ProjectStatus::Daemon { pid, start_time, cpu_usage, memory_usage } => s@ == (
            StatusModel::Daemon { pid, start_time, cpu_usage: cpu_usage@, memory_usage }),
            ProjectStatus::Error(message) => s@ == StatusModel::Error(message@),
        },
{
}

/// The contents of the state of a dashboard are those of all its fields.
pub proof fn lemma_state_contents(app: App, i: int)
    requires
        0 <= i < app.projects@.len(),
    ensures
        app@.projects.len() == app.projects@.len(),
        app@.projects[i] == app.projects@[i]@,
        app@.selected_index == app.selected_index,
        app@.should_quit == app.should_quit,
        app@.running_processes == app.running_processes@,
        app@.output_scroll == app.output_scroll,
        app@.auto_scroll == app.auto_scroll,
        app@.show_system_processes == app.show_system_processes,
{
}

/// The contents of a plan, of an entry and of a process of the system are those of their fields.
pub proof fn lemma_other_contents(
    plan: LaunchPlan,
    entry: ListEntry,
    p: SystemProcess,
    output: ProcessOutput,
)
    ensures
        plan@.program == plan.program@ && plan@.args == texts(plan.args@),
        plan@.working_dir == plan.working_dir@ && plan@.daemon == plan.daemon,
        entry@.marker == entry.marker@ && entry@.name == entry.name@,
        entry@.detail == entry.detail@ && entry@.selected == entry.selected,
        p@.name == p.name@ && p@.pid == p.pid && p@.cpu_rank == p.cpu_rank,
        p@.cpu_usage == p.cpu_usage@ && p@.memory == p.memory,
        record_model(Some(&output)) == Some(output@),
        record_model(None) is None,
{
}

/// The contents of a list are those of its items, one by one.
pub proof fn lemma_list_contents(
    strings: Seq<String>,
    parts: Seq<&[char]>,
    projects: Seq<Project>,
    models: Seq<ProjectModel>,
    processes: Seq<SystemProcess>,
    entries: Seq<ListEntry>,
    i: int,
)
    ensures
        texts(strings).len() == strings.len(),
        0 <= i < strings.len() ==> texts(strings)[i] == strings[i]@,
        slices(parts).len() == parts.len(),
        0 <= i < parts.len() ==> slices(parts)[i] == parts[i]@,
        project_models(projects).len() == projects.len(),
        0 <= i < projects.len() ==> project_models(projects)[i] == projects[i]@,
        configs(models).len() == models.len(),
        0 <= i < models.len() ==> configs(models)[i] == models[i].config,
        process_models(processes).len() == processes.len(),
        0 <= i < processes.len() ==> process_models(processes)[i] == processes[i]@,
        entry_models(entries).len() == entries.len(),
        0 <= i < entries.len() ==> entry_models(entries)[i] == entries[i]@,
{
}

} // verus!
