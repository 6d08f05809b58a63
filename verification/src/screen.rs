//! What the dashboard shows.

use vstd::prelude::*;
use vstd::utf8::{decode_utf8, encode_utf8, is_ascii_chars, is_char_boundary};

use crate::clock::{Timestamp, append_uptime, uptime_text, whole_minutes, whole_seconds};
use crate::dashboard::{App, AppModel};
use crate::layout::{Area, Panels, divide_screen, divided, output_height};
use crate::output::{OutputModel, ProcessOutput};
use crate::processes::{MAX_LISTED, SystemProcess, SystemProcessModel, first, get_system_processes};
use crate::processes::{process_models, ranked, targeted};
use crate::project::{ConfigModel, Project, ProjectConfig, ProjectModel, ProjectStatus, StatusModel};
use crate::text::{append_u64, chars_of, decimal, join, join_lines, lines, slices, split_lines};
use crate::text::{feeds, lemma_decimal_has_no_feed, lemma_feeds_add, lemma_line_count};
use crate::text::{lemma_no_feeds, string_of, texts};

verus! {

/// How many bytes of an error are shown in the list of projects.
pub const SHOWN_ERROR_BYTES: usize = 20;

/// How wide the rule between the description of a process and its output is.
pub const RULE_WIDTH: usize = 50;

/// A process id as it is shown: process ids are signed numbers of 32 bits.
pub open spec fn shown_pid(pid: u32) -> Seq<char> {
    decimal(
        if pid < 0x8000_0000 {
            pid as int
        } else {
            pid - 0x1_0000_0000
        },
    )
}

/// `sysinfo::Pid`, made by `from_u32` and shown by its `Display`: the id in decimal, taken as the
/// signed number of 32 bits that `pid_t` is on Unix systems.
#[verifier::external_body]
fn pid_string(pid: u32) -> (r: String)
    ensures
        r@ == shown_pid(pid),
{
    sysinfo::Pid::from_u32(pid).to_string()
}

/// Bytes in whole mebibytes.
pub open spec fn mebibytes(bytes: u64) -> int {
    bytes as int / 1024 / 1024
}

/// Whether an error can be cut for the list of projects: the cut does not fall inside a
/// character.
pub open spec fn displayable(message: Seq<char>) -> bool {
    ||| encode_utf8(message).len() <= SHOWN_ERROR_BYTES
    ||| is_char_boundary(encode_utf8(message), SHOWN_ERROR_BYTES as int)
}

/// An error as it is shown in the list of projects: the characters in its first bytes.
pub open spec fn shortened(message: Seq<char>) -> Seq<char> {
    if encode_utf8(message).len() > SHOWN_ERROR_BYTES {
        decode_utf8(encode_utf8(message).take(SHOWN_ERROR_BYTES as int))
    } else {
        message
    }
}

/// Tests whether an error can be cut for the list of projects.
pub fn can_shorten(message: &str) -> (r: bool)
    ensures
        r == displayable(message@),
{
    message.as_bytes().len() <= SHOWN_ERROR_BYTES || message.is_char_boundary(SHOWN_ERROR_BYTES)
}

/// Cuts an error for the list of projects.
pub fn shorten(message: &str) -> (r: String)
    requires
        displayable(message@),
    ensures
        r@ == shortened(message@),
{
    if message.as_bytes().len() > SHOWN_ERROR_BYTES {
        let (head, _tail) = message.split_at(SHOWN_ERROR_BYTES);
        proof {
            vstd::utf8::encode_utf8_decode_utf8(head@);
            assert(encode_utf8(message@).take(SHOWN_ERROR_BYTES as int) =~= encode_utf8(head@));
        }
        head.to_string()
    } else {
        message.to_string()
    }
}

/// An entry of a list.
#[derive(Debug, Clone)]
pub struct ListEntry {
    /// What stands before the name.
    pub marker: String,
    /// The name.
    pub name: String,
    /// What stands after the name.
    pub detail: String,
    /// Whether the entry is selected.
    pub selected: bool,
}

/// The contents of a [`ListEntry`].
#[verifier::ext_equal]
pub struct EntryModel {
    /// See [`ListEntry::marker`].
    pub marker: Seq<char>,
    /// See [`ListEntry::name`].
    pub name: Seq<char>,
    /// See [`ListEntry::detail`].
    pub detail: Seq<char>,
    /// See [`ListEntry::selected`].
    pub selected: bool,
}

impl View for ListEntry {
    type V = EntryModel;

    open spec fn view(&self) -> EntryModel {
        EntryModel {
            marker: self.marker@,
            name: self.name@,
            detail: self.detail@,
            selected: self.selected,
        }
    }
}

/// The contents of a list.
pub open spec fn entry_models(s: Seq<ListEntry>) -> Seq<EntryModel> {
    Seq::new(s.len(), |i: int| s[i]@)
}

/// The sign for a status.
pub open spec fn status_icon(status: StatusModel) -> Seq<char> {
    match status {
        StatusModel::Running { .. } => "🟢"@,
        StatusModel::Daemon { .. } => "🔵"@,
        StatusModel::Stopped => "🔴"@,
        StatusModel::Error(_) => "🟡"@,
    }
}

/// The figures of a process, in short.
pub open spec fn figures(
    label: Seq<char>,
    pid: Seq<char>,
    cpu_usage: Seq<char>,
    memory: u64,
) -> Seq<char> {
    label + pid + " "@ + cpu_usage + "% "@ + decimal(mebibytes(memory)) + "MB"@
}

/// A status in short.
pub open spec fn status_text(project: ProjectModel, now: Timestamp) -> Seq<char> {
    match project.status {
        StatusModel::Running { pid, start_time, cpu_usage, memory_usage } => figures(
            "PID:"@,
            shown_pid(pid),
            cpu_usage,
            memory_usage,
        ) + " "@ + uptime_text(start_time, now, "m"@, "s"@),
        StatusModel::Daemon { pid, start_time, cpu_usage, memory_usage } => figures(
            "DAEMON PID:"@,
            shown_pid(pid),
            cpu_usage,
            memory_usage,
        ) + " "@ + uptime_text(start_time, now, "m"@, "s"@),
        StatusModel::Stopped => "Stopped"@ + (if project.config.daemon_mode {
            " (daemon)"@
        } else {
            ""@
        }),
        StatusModel::Error(message) => "Error: "@ + shortened(message),
    }
}

/// The entry of a project in the list.
pub open spec fn project_entry(
    project: ProjectModel,
    selected: bool,
    now: Timestamp,
) -> EntryModel {
    EntryModel {
        marker: status_icon(project.status) + " "@,
        name: project.config.name,
        detail: "\n  "@ + status_text(project, now),
        selected,
    }
}

/// The list of projects.
pub open spec fn project_entries(m: AppModel, now: Timestamp) -> Seq<EntryModel> {
    Seq::new(
        m.projects.len(),
        |i: int| project_entry(m.projects[i], i == m.selected_index, now),
    )
}

/// The entry of a process of the system in the list.
pub open spec fn system_entry(p: SystemProcessModel) -> EntryModel {
    EntryModel {
        marker: "🔹 "@,
        name: p.name,
        detail: "\n  "@ + figures("PID:"@, decimal(p.pid as int), p.cpu_usage, p.memory),
        selected: false,
    }
}

/// The list of the processes of the system.
pub open spec fn system_entries(s: Seq<SystemProcessModel>) -> Seq<EntryModel> {
    Seq::new(s.len(), |i: int| system_entry(s[i]))
}

/// Appends the figures of a process, in short.
fn append_figures(out: &mut String, label: &str, pid: &str, cpu_usage: &str, memory: u64)
    ensures
        final(out)@ == old(out)@ + figures(label@, pid@, cpu_usage@, memory),
{
    out.append(label);
    out.append(pid);
    out.append(" ");
    out.append(cpu_usage);
    out.append("% ");
    append_u64(out, memory / 1024 / 1024);
    out.append("MB");
    assert(out@ =~= old(out)@ + figures(label@, pid@, cpu_usage@, memory));
}

/// The entry of a project in the list.
pub fn format_project(project: &Project, selected: bool, now: Timestamp) -> (r: ListEntry)
    requires
        project@.status matches StatusModel::Error(message) ==> displayable(message),
    ensures
        r@ == project_entry(project@, selected, now),
{
    let mut marker = match &project.status {
        ProjectStatus::Running { .. } => "🟢".to_string(),
        ProjectStatus::Daemon { .. } => "🔵".to_string(),
        ProjectStatus::Stopped => "🔴".to_string(),
        ProjectStatus::Error(_) => "🟡".to_string(),
    };
    marker.append(" ");
    let mut detail = "\n  ".to_string();
    match &project.status {
        ProjectStatus::Running { pid, start_time, cpu_usage, memory_usage } => {
            let id = pid_string(*pid);
            append_figures(&mut detail, "PID:", id.as_str(), cpu_usage.as_str(), *memory_usage);
            detail.append(" ");
            append_uptime(&mut detail, *start_time, now, "m", "s");
        },
        ProjectStatus::Daemon { pid, start_time, cpu_usage, memory_usage } => {
            let id = pid_string(*pid);
            append_figures(
                &mut detail,
                "DAEMON PID:",
                id.as_str(),
                cpu_usage.as_str(),
                *memory_usage,
            );
            detail.append(" ");
            append_uptime(&mut detail, *start_time, now, "m", "s");
        },
        ProjectStatus::Stopped => {
            detail.append("Stopped");
            detail.append(if project.config.daemon_mode { " (daemon)" } else { "" });
        },
        ProjectStatus::Error(message) => {
            detail.append("Error: ");
            detail.append(shorten(message.as_str()).as_str());
        },
    }
    assert(detail@ =~= "\n  "@ + status_text(project@, now));
    ListEntry { marker, name: project.config.name.clone(), detail, selected }
}

/// The entry of a process of the system in the list.
pub fn format_system_process(p: &SystemProcess) -> (r: ListEntry)
    ensures
        r@ == system_entry(p@),
{
    let mut id = String::new();
    append_u64(&mut id, p.pid as u64);
    assert(id@ =~= decimal(p.pid as int));
    let mut detail = "\n  ".to_string();
    append_figures(&mut detail, "PID:", id.as_str(), p.cpu_usage.as_str(), p.memory);
    ListEntry { marker: "🔹 ".to_string(), name: p.name.clone(), detail, selected: false }
}

/// The rule between the description of a process and its output.
pub open spec fn rule() -> Seq<char> {
    Seq::new(RULE_WIDTH as nat, |i: int| '─')
}

/// The description of a process.
pub open spec fn process_header(
    headline: Seq<char>,
    config: ConfigModel,
    pid: u32,
    start_time: Timestamp,
    cpu_usage: Seq<char>,
    memory_usage: u64,
    now: Timestamp,
) -> Seq<char> {
    headline + "\n\nPID: "@ + shown_pid(pid) + " | CPU: "@ + cpu_usage + "% | Memory: "@ + decimal(
        mebibytes(memory_usage),
    ) + " MB | Uptime: "@ + uptime_text(start_time, now, " minutes"@, " seconds"@) + "\nPath: "@
        + config.path + "\nCommand: "@ + config.command + "\n\n"@ + rule()
}

/// The description of a project.
pub open spec fn header(project: ProjectModel, now: Timestamp) -> Seq<char> {
    let config = project.config;
    match project.status {
        StatusModel::Running { pid, start_time, cpu_usage, memory_usage } => process_header(
            "🟢 Process is running"@,
            config,
            pid,
            start_time,
            cpu_usage,
            memory_usage,
            now,
        ),
        StatusModel::Daemon { pid, start_time, cpu_usage, memory_usage } => process_header(
            "🔵 Process is running as DAEMON"@,
            config,
            pid,
            start_time,
            cpu_usage,
            memory_usage,
            now,
        ),
        StatusModel::Stopped => "🔴 Process is stopped\n\nPath: "@ + config.path + "\nCommand: "@
            + config.command + "\n\nPress SPACE to start this project"@,
        StatusModel::Error(message) => "🟡 Error occurred\n\nError: "@ + message + "\nPath: "@
            + config.path + "\nCommand: "@ + config.command
            + "\n\nCheck your configuration and try again"@,
    }
}

/// What a project has written, as far as it is recorded; `None` where the record cannot be read.
pub open spec fn written(status: StatusModel, output: Option<OutputModel>) -> Seq<char> {
    match status {
        StatusModel::Running { .. } => match output {
            Some(record) => record.shown(),
            None => "Error reading output"@,
        },
        StatusModel::Daemon { .. } => {
            "Daemon processes run in the background without output capture.\nThey will continue running even if you close the dashboard.\nUse 'ps aux | grep <command>' to see their output in the terminal."@
        },
        _ => ""@,
    }
}

/// The lines that are shown of a project: its description, and after a blank line what it has
/// written.
pub open spec fn project_lines(
    project: ProjectModel,
    output: Option<OutputModel>,
    now: Timestamp,
) -> Seq<Seq<char>> {
    let text = written(project.status, output);
    if text.len() == 0 {
        lines(header(project, now))
    } else {
        lines(header(project, now)) + seq![""@] + lines(text)
    }
}

/// The lines that are shown of the selected project.
pub open spec fn output_lines(
    m: AppModel,
    output: Option<OutputModel>,
    now: Timestamp,
) -> Seq<Seq<char>> {
    if m.selected_index < m.projects.len() {
        project_lines(m.projects[m.selected_index as int], output, now)
    } else {
        seq!["No project selected"@]
    }
}

/// The title of the output.
pub open spec fn output_heading(m: AppModel) -> Seq<char> {
    if m.selected_index < m.projects.len() {
        let config = m.projects[m.selected_index as int].config;
        "📋 "@ + config.name + " - "@ + config.command
    } else {
        "📋 Output"@
    }
}

/// Appends a rule.
fn append_rule(out: &mut String)
    ensures
        final(out)@ == old(out)@ + rule(),
{
    let mut i: usize = 0;
    let ghost start = out@;
    assert(start + rule().take(0) =~= start);
    while i < RULE_WIDTH
        invariant
            i <= RULE_WIDTH,
            out@ == start + rule().take(i as int),
        decreases RULE_WIDTH - i,
    {
        out.push('─');
        assert(out@ =~= start + rule().take(i + 1));
        i += 1;
    }
    assert(rule().take(i as int) =~= rule());
}

/// The description of a process.
fn format_process_header(
    headline: &str,
    config: &ProjectConfig,
    pid: u32,
    start_time: Timestamp,
    cpu_usage: &str,
    memory_usage: u64,
    now: Timestamp,
) -> (r: String)
    ensures
        r@ == process_header(headline@, config@, pid, start_time, cpu_usage@, memory_usage, now),
{
    let mut out = headline.to_string();
    out.append("\n\nPID: ");
    out.append(pid_string(pid).as_str());
    out.append(" | CPU: ");
    out.append(cpu_usage);
    out.append("% | Memory: ");
    append_u64(&mut out, memory_usage / 1024 / 1024);
    out.append(" MB | Uptime: ");
    append_uptime(&mut out, start_time, now, " minutes", " seconds");
    out.append("\nPath: ");
    out.append(config.path.as_str());
    out.append("\nCommand: ");
    out.append(config.command.as_str());
    out.append("\n\n");
    append_rule(&mut out);
    out
}

/// The description of a project.
pub fn format_header(project: &Project, now: Timestamp) -> (r: String)
    ensures
        r@ == header(project@, now),
{
    let config = &project.config;
    match &project.status {
        ProjectStatus::Running { pid, start_time, cpu_usage, memory_usage } => {
            format_process_header(
                "🟢 Process is running",
                config,
                *pid,
                *start_time,
                cpu_usage.as_str(),
                *memory_usage,
                now,
            )
        },
        ProjectStatus::Daemon { pid, start_time, cpu_usage, memory_usage } => {
            format_process_header(
                "🔵 Process is running as DAEMON",
                config,
                *pid,
                *start_time,
                cpu_usage.as_str(),
                *memory_usage,
                now,
            )
        },
        ProjectStatus::Stopped => {
            let mut out = "🔴 Process is stopped\n\nPath: ".to_string();
            out.append(config.path.as_str());
            out.append("\nCommand: ");
            out.append(config.command.as_str());
            out.append("\n\nPress SPACE to start this project");
            out
        },
        ProjectStatus::Error(message) => {
            let mut out = "🟡 Error occurred\n\nError: ".to_string();
            out.append(message.as_str());
            out.append("\nPath: ");
            out.append(config.path.as_str());
            out.append("\nCommand: ");
            out.append(config.command.as_str());
            out.append("\n\nCheck your configuration and try again");
            out
        },
    }
}

/// The contents of a record that may not be readable.
pub open spec fn record_model(output: Option<&ProcessOutput>) -> Option<OutputModel> {
    match output {
        Some(record) => Some(record@),
        None => None,
    }
}

/// What a project has written.
fn format_written(status: &ProjectStatus, output: Option<&ProcessOutput>) -> (r: String)
    ensures
        r@ == written(status@, record_model(output)),
{
    match status {
        ProjectStatus::Running { .. } => match output {
            Some(record) => record.get_all_output(),
            None => "Error reading output".to_string(),
        },
        ProjectStatus::Daemon { .. } => {
            "Daemon processes run in the background without output capture.\nThey will continue running even if you close the dashboard.\nUse 'ps aux | grep <command>' to see their output in the terminal.".to_string()
        },
        _ => "".to_string(),
    }
}

/// Appends the lines of a text to a list.
fn push_lines(out: &mut Vec<String>, text: &str)
    ensures
        texts(final(out)@) == texts(old(out)@) + lines(text@),
{
    let ghost start = texts(out@);
    let chars = chars_of(text);
    let parts = split_lines(chars.as_slice());
    let mut i: usize = 0;
    assert(start + slices(parts@).take(0) =~= start);
    while i < parts.len()
        invariant
            i <= parts@.len(),
            texts(out@) == start + slices(parts@).take(i as int),
        decreases parts@.len() - i,
    {
        let ghost before = texts(out@);
        let line = string_of(parts[i]);
        out.push(line);
        assert(slices(parts@)[i as int] == line@);
        assert(texts(out@) =~= before.push(line@));
        assert(texts(out@) =~= start + slices(parts@).take(i + 1));
        i += 1;
    }
    assert(slices(parts@).take(i as int) =~= slices(parts@));
}

/// The lines that are shown of a project.
pub fn collect_project_lines(
    project: &Project,
    output: Option<&ProcessOutput>,
    now: Timestamp,
) -> (r: Vec<String>)
    ensures
        texts(r@) == project_lines(project@, record_model(output), now),
{
    let mut all: Vec<String> = Vec::new();
    assert(texts(all@) =~= Seq::empty());
    let head = format_header(project, now);
    push_lines(&mut all, head.as_str());
    assert(texts(all@) =~= lines(header(project@, now)));
    let text = format_written(&project.status, output);
    if !text.as_str().is_empty() {
        let ghost before = texts(all@);
        all.push("".to_string());
        assert(texts(all@) =~= before + seq![""@]);
        push_lines(&mut all, text.as_str());
    }
    all
}

/// How many lines of output fit into a panel, inside its frame.
pub open spec fn rows(height: u16) -> int {
    if height >= 2 {
        height - 2
    } else {
        0
    }
}

/// The furthest that the output can be scrolled: until its last line is in view.
pub open spec fn max_scroll(count: nat, height: u16) -> int {
    if count > rows(height) {
        count - rows(height)
    } else {
        0
    }
}

/// The first line of the output in view: the end of the output is kept in view, or the line that
/// was scrolled to, as far as there is one.
pub open spec fn scroll_position(m: AppModel, count: nat, height: u16) -> int {
    if m.auto_scroll || m.output_scroll > max_scroll(count, height) {
        max_scroll(count, height)
    } else {
        m.output_scroll as int
    }
}

/// The lines in view.
pub open spec fn visible(all: Seq<Seq<char>>, scroll: int, height: u16) -> Seq<Seq<char>> {
    if all.len() <= rows(height) {
        all
    } else {
        all.subrange(scroll, scroll + rows(height))
    }
}

/// The title of the panel with the output: how far it is scrolled, where it can be.
pub open spec fn panel_title(scroll: int, max: int) -> Seq<char> {
    if max > 0 {
        "Output ("@ + decimal(scroll * 100 / max) + "%)"@
    } else {
        "Output"@
    }
}

/// The keys of the right column.
pub open spec fn output_keys(auto_scroll: bool) -> Seq<char> {
    "Q Quit | Shift+↑↓ Scroll | PgUp/PgDn | End Bottom | A Toggle Auto ("@ + (
    if auto_scroll {
        "AUTO"@
    } else {
        "MANUAL"@
    }) + ")"@
}

impl AppModel {
    /// The state with the output scrolled so that its lines fill the panel.
    pub open spec fn with_scroll_clamped(self, count: nat, height: u16) -> AppModel {
        AppModel { output_scroll: scroll_position(self, count, height) as usize, ..self }
    }

    /// Whether all errors can be cut for the list of projects.
    pub open spec fn presentable(self) -> bool {
        forall|i: int|
            0 <= i < self.projects.len() ==> ((#[trigger] self.projects[i]).status matches
                StatusModel::Error(message) ==> displayable(message))
    }
}

/// The part of the output that is in view.
#[derive(Debug, Clone)]
pub struct Viewport {
    /// The lines in view.
    pub text: String,
    /// The title of the panel.
    pub title: String,
}

/// What is on the screen.
#[derive(Debug, Clone)]
pub struct Screen {
    /// The time for which it was composed.
    pub time: Timestamp,
    /// Where everything stands.
    pub panels: Panels,
    /// The list of projects.
    pub projects: Vec<ListEntry>,
    /// The list of the processes of the system; empty where it is not shown.
    pub system: Vec<ListEntry>,
    /// The title of the output.
    pub output_heading: String,
    /// The output.
    pub output: Viewport,
    /// The keys of the right column.
    pub output_keys: String,
}

/// What is on the screen for a state of the dashboard, at a time, with the record of what the
/// selected project has written and the processes of the system.
pub open spec fn composed(
    screen: Screen,
    m: AppModel,
    area: Area,
    now: Timestamp,
    output: Option<OutputModel>,
    processes: Seq<SystemProcessModel>,
) -> bool {
    let all = output_lines(m, output, now);
    let height = screen.panels.output.height;
    let scroll = scroll_position(m, all.len(), height);
    &&& screen.time == now
    &&& exists|columns: Seq<Area>, left: Seq<Area>, right: Seq<Area>|
        divided(screen.panels, area, m.show_system_processes, columns, left, right)
    &&& height == output_height(area)
    &&& entry_models(screen.projects@) == project_entries(m, now)
    &&& entry_models(screen.system@) == if m.show_system_processes {
        system_entries(first(ranked(targeted(processes)), MAX_LISTED as int))
    } else {
        Seq::empty()
    }
    &&& screen.output_heading@ == output_heading(m)
    &&& screen.output.text@ == join(visible(all, scroll, height))
    &&& screen.output.title@ == panel_title(scroll, max_scroll(all.len(), height))
    &&& screen.output_keys@ == output_keys(m.auto_scroll)
}

impl App {
    /// Tests whether all errors can be cut for the list of projects.
    pub fn can_present(&self) -> (r: bool)
        ensures
            r == self@.presentable(),
    {
        let mut i: usize = 0;
        while i < self.projects.len()
            invariant
                i <= self.projects@.len(),
                forall|k: int|
                    0 <= k < i ==> ((#[trigger] self@.projects[k]).status matches
                        StatusModel::Error(message) ==> displayable(message)),
            decreases self.projects@.len() - i,
        {
            assert(self@.projects[i as int].status == self.projects@[i as int].status@);
            if let ProjectStatus::Error(message) = &self.projects[i].status {
                if !can_shorten(message.as_str()) {
                    return false;
                }
            }
            i += 1;
        }
        true
    }

    /// The list of projects.
    pub fn project_list(&self, now: Timestamp) -> (r: Vec<ListEntry>)
        requires
            self@.presentable(),
        ensures
            entry_models(r@) == project_entries(self@, now),
    {
        let mut r: Vec<ListEntry> = Vec::new();
        while r.len() < self.projects.len()
            invariant
                r@.len() <= self.projects@.len(),
                self@.presentable(),
                forall|k: int|
                    0 <= k < r@.len() ==> (#[trigger] r@[k])@ == project_entries(self@, now)[k],
            decreases self.projects@.len() - r@.len(),
        {
            let i = r.len();
            assert(self@.projects[i as int] == self.projects@[i as int]@);
            r.push(format_project(&self.projects[i], i == self.selected_index, now));
        }
        assert(entry_models(r@) =~= project_entries(self@, now));
        r
    }

    /// The title of the output.
    pub fn format_output_heading(&self) -> (r: String)
        ensures
            r@ == output_heading(self@),
    {
        if self.selected_index < self.projects.len() {
            let config = &self.projects[self.selected_index].config;
            let mut out = "📋 ".to_string();
            out.append(config.name.as_str());
            out.append(" - ");
            out.append(config.command.as_str());
            out
        } else {
            "📋 Output".to_string()
        }
    }

    /// The lines that are shown of the selected project.
    pub fn collect_output_lines(&self, output: Option<&ProcessOutput>, now: Timestamp) -> (r: Vec<
        String,
    >)
        ensures
            texts(r@) == output_lines(self@, record_model(output), now),
    {
        if self.selected_index < self.projects.len() {
            collect_project_lines(&self.projects[self.selected_index], output, now)
        } else {
            let mut r: Vec<String> = Vec::new();
            r.push("No project selected".to_string());
            assert(texts(r@) =~= seq!["No project selected"@]);
            r
        }
    }

    /// Scrolls the output so that its lines fill a panel of the given height, and gives the part
    /// that is in view.
    pub fn view_output(&mut self, all: &Vec<String>, height: u16) -> (r: Viewport)
        ensures
            final(self)@ == old(self)@.with_scroll_clamped(all@.len(), height),
            r.text@ == join(
                visible(texts(all@), scroll_position(old(self)@, all@.len(), height), height),
            ),
            r.title@ == panel_title(
                scroll_position(old(self)@, all@.len(), height),
                max_scroll(all@.len(), height),
            ),
    {
        let ghost before = self@;
        let fit: usize = if height >= 2 {
            (height - 2) as usize
        } else {
            0
        };
        let max: usize = if all.len() > fit {
            all.len() - fit
        } else {
            0
        };
        if self.auto_scroll || self.output_scroll > max {
            self.output_scroll = max;
        }
        assert(self.output_scroll == scroll_position(before, all@.len(), height));
        let text = if all.len() <= fit {
            assert(texts(all@).subrange(0, all@.len() as int) =~= texts(all@));
            join_lines(all, 0, all.len())
        } else {
            join_lines(all, self.output_scroll, self.output_scroll + fit)
        };
        let title = if max > 0 {
            let percent = scroll_percent(self.output_scroll, max);
            let mut out = "Output (".to_string();
            append_u64(&mut out, percent);
            out.append("%)");
            out
        } else {
            "Output".to_string()
        };
        Viewport { text, title }
    }

    /// Composes the screen at the current time.
    pub fn ui(
        &mut self,
        area: Area,
        output: Option<&ProcessOutput>,
        processes: &Vec<SystemProcess>,
    ) -> (r: Screen)
        requires
            old(self)@.presentable(),
        ensures
            composed(
                r,
                old(self)@,
                area,
                r.time,
                record_model(output),
                process_models(processes@),
            ),
            final(self)@ == old(self)@.with_scroll_clamped(
                output_lines(old(self)@, record_model(output), r.time).len(),
                r.panels.output.height,
            ),
    {
        let now = Timestamp::now();
        self.ui_at(area, now, output, processes)
    }

    /// Composes the screen: an area of the given size, at the given time, with the record of what
    /// the selected project has written, where it can be read, and the processes of the system.
    pub fn ui_at(
        &mut self,
        area: Area,
        now: Timestamp,
        output: Option<&ProcessOutput>,
        processes: &Vec<SystemProcess>,
    ) -> (r: Screen)
        requires
            old(self)@.presentable(),
        ensures
            composed(
                r,
                old(self)@,
                area,
                now,
                record_model(output),
                process_models(processes@),
            ),
            final(self)@ == old(self)@.with_scroll_clamped(
                output_lines(old(self)@, record_model(output), now).len(),
                r.panels.output.height,
            ),
    {
        let panels = divide_screen(area, self.show_system_processes);
        let projects = self.project_list(now);
        let system = if self.show_system_processes {
            let listed = get_system_processes(processes);
            let system = format_system_processes(&listed);
            system
        } else {
            let none: Vec<ListEntry> = Vec::new();
            assert(entry_models(none@) =~= Seq::empty());
            none
        };
        let heading = self.format_output_heading();
        let all = self.collect_output_lines(output, now);
        assert(texts(all@).len() == all@.len());
        let viewport = self.view_output(&all, panels.output.height);
        let mut keys =
            "Q Quit | Shift+↑↓ Scroll | PgUp/PgDn | End Bottom | A Toggle Auto (".to_string();
        keys.append(if self.auto_scroll { "AUTO" } else { "MANUAL" });
        keys.append(")");
        Screen {
            time: now,
            panels,
            projects,
            system,
            output_heading: heading,
            output: viewport,
            output_keys: keys,
        }
    }
}

/// How far something is scrolled, in hundredths of how far it can be.
fn scroll_percent(scroll: usize, max: usize) -> (r: u64)
    requires
        0 < max,
        scroll <= max,
    ensures
        r == scroll * 100 / max as int,
        r <= 100,
{
    let wide: u128 = scroll as u128 * 100;
    proof {
        let (s, m) = (scroll as int, max as int);
        assert(s * 100 / m <= 100) by (nonlinear_arith)
            requires
                0 <= s <= m,
                0 < m,
        ;
    }
    (wide / max as u128) as u64
}

/// The list of the processes of the system.
fn format_system_processes(listed: &Vec<SystemProcess>) -> (r: Vec<ListEntry>)
    ensures
        entry_models(r@) == system_entries(process_models(listed@)),
{
    let mut r: Vec<ListEntry> = Vec::new();
    while r.len() < listed.len()
        invariant
            r@.len() <= listed@.len(),
            forall|k: int| 0 <= k < r@.len() ==> (#[trigger] r@[k])@ == system_entry(listed@[k]@),
        decreases listed@.len() - r@.len(),
    {
        let entry = format_system_process(&listed[r.len()]);
        r.push(entry);
    }
    assert(entry_models(r@) =~= system_entries(process_models(listed@)));
    r
}

/// A text has at least as many bytes as characters.
proof fn lemma_no_character_is_empty(message: Seq<char>)
    ensures
        encode_utf8(message).len() >= message.len(),
    decreases message.len(),
{
    if message.len() > 0 {
        lemma_no_character_is_empty(message.drop_first());
    }
}

/// Of a text that starts with ASCII characters, as many bytes are as many characters.
proof fn lemma_ascii_start(message: Seq<char>, n: int)
    requires
        0 <= n <= message.len(),
        is_ascii_chars(message.take(n)),
    ensures
        encode_utf8(message).len() >= n,
        is_char_boundary(encode_utf8(message), n),
        encode_utf8(message).take(n) == encode_utf8(message.take(n)),
    decreases n,
{
    broadcast use vstd::utf8::encode_utf8_valid_utf8;

    let bytes = encode_utf8(message);
    let head = message.take(n);
    if n == 0 {
        assert(bytes.take(0) =~= encode_utf8(head));
    } else {
        let rest = message.drop_first();
        assert(head[0] == message[0]);
        assert(head.drop_first() =~= rest.take(n - 1));
        assert forall|i: int| 0 <= i < n - 1 implies '\0' <= #[trigger] rest.take(n - 1)[i]
            <= '\u{7f}' by {
            assert(head[i + 1] == rest.take(n - 1)[i]);
        }
        lemma_ascii_start(rest, n - 1);
        vstd::utf8::encode_utf8_first_scalar(message);
        assert(vstd::utf8::pop_first_scalar(bytes) =~= encode_utf8(rest));
        assert(bytes.take(n) =~= vstd::utf8::encode_scalar(message[0] as u32) + encode_utf8(
            rest,
        ).take(n - 1));
    }
}

/// An error that starts with ASCII characters can be cut for the list of projects, and is cut to
/// that many characters.
pub proof fn lemma_ascii_errors_are_displayable(message: Seq<char>)
    requires
        is_ascii_chars(first(message, SHOWN_ERROR_BYTES as int)),
    ensures
        displayable(message),
        shortened(message) == first(message, SHOWN_ERROR_BYTES as int),
{
    let n = SHOWN_ERROR_BYTES as int;
    if message.len() > n {
        lemma_ascii_start(message, n);
        vstd::utf8::encode_utf8_decode_utf8(message.take(n));
        lemma_no_character_is_empty(message);
    } else {
        assert(message.take(message.len() as int) =~= message);
        vstd::utf8::is_ascii_chars_encode_utf8(message);
    }
}

/// What is in view is never more than fits, and with the end kept in view the last line is always
/// in view, where a line fits at all.
pub proof fn lemma_view(m: AppModel, all: Seq<Seq<char>>, height: u16)
    ensures
        ({
            let scroll = scroll_position(m, all.len(), height);
            let shown = visible(all, scroll, height);
            &&& 0 <= scroll <= max_scroll(all.len(), height)
            &&& shown.len() <= rows(height)
            &&& shown.len() == rows(height) || shown == all
            &&& m.auto_scroll && shown.len() > 0 ==> shown.last() == all.last()
        }),
{
}

/// The time for which a process is up is told within a line.
proof fn lemma_uptime_has_no_feed(start: Timestamp, now: Timestamp)
    ensures
        feeds(uptime_text(start, now, " minutes"@, " seconds"@)) == 0,
{
    reveal_strlit(" minutes");
    reveal_strlit(" seconds");
    lemma_no_feeds(" minutes"@);
    lemma_no_feeds(" seconds"@);
    lemma_decimal_has_no_feed(whole_minutes(start, now));
    lemma_decimal_has_no_feed(whole_seconds(start, now));
    lemma_feeds_add(decimal(whole_minutes(start, now)), " minutes"@);
    lemma_feeds_add(decimal(whole_seconds(start, now)), " seconds"@);
}

/// The description of a process has as many lines at any time.
proof fn lemma_header_lines(
    headline: Seq<char>,
    config: ConfigModel,
    pid: u32,
    start_time: Timestamp,
    cpu_usage: Seq<char>,
    memory_usage: u64,
    t: Timestamp,
    u: Timestamp,
)
    ensures
        lines(process_header(headline, config, pid, start_time, cpu_usage, memory_usage, t)).len()
            == lines(
            process_header(headline, config, pid, start_time, cpu_usage, memory_usage, u),
        ).len(),
{
    let before = headline + "\n\nPID: "@ + shown_pid(pid) + " | CPU: "@ + cpu_usage
        + "% | Memory: "@ + decimal(mebibytes(memory_usage)) + " MB | Uptime: "@;
    let after = "\nPath: "@ + config.path + "\nCommand: "@ + config.command + "\n\n"@ + rule();
    let a = uptime_text(start_time, t, " minutes"@, " seconds"@);
    let b = uptime_text(start_time, u, " minutes"@, " seconds"@);
    let h = process_header(headline, config, pid, start_time, cpu_usage, memory_usage, t);
    let k = process_header(headline, config, pid, start_time, cpu_usage, memory_usage, u);
    assert(h =~= before + a + after);
    assert(k =~= before + b + after);
    assert(h.last() == rule().last() && k.last() == rule().last());
    lemma_uptime_has_no_feed(start_time, t);
    lemma_uptime_has_no_feed(start_time, u);
    lemma_feeds_add(before, a);
    lemma_feeds_add(before, b);
    lemma_feeds_add(before + a, after);
    lemma_feeds_add(before + b, after);
    lemma_line_count(h);
    lemma_line_count(k);
}

/// How many lines are shown of the selected project does not depend on the time.
pub proof fn lemma_line_count_is_timeless(
    m: AppModel,
    output: Option<OutputModel>,
    t: Timestamp,
    u: Timestamp,
)
    ensures
        output_lines(m, output, t).len() == output_lines(m, output, u).len(),
{
    if m.selected_index < m.projects.len() {
        let project = m.projects[m.selected_index as int];
        match project.status {
            StatusModel::Running { pid, start_time, cpu_usage, memory_usage } => {
                lemma_header_lines(
                    "🟢 Process is running"@,
                    project.config,
                    pid,
                    start_time,
                    cpu_usage,
                    memory_usage,
                    t,
                    u,
                );
            },
            StatusModel::Daemon { pid, start_time, cpu_usage, memory_usage } => {
                lemma_header_lines(
                    "🔵 Process is running as DAEMON"@,
                    project.config,
                    pid,
                    start_time,
                    cpu_usage,
                    memory_usage,
                    t,
                    u,
                );
            },
            _ => {},
        }
    }
}

/// Composing the screen again in an equal area, at whatever time and with whatever processes of
/// the system, changes nothing more: the first time changes at most how far the output is
/// scrolled, the second not even that.
pub proof fn lemma_drawing_again_changes_nothing(
    m: AppModel,
    area: Area,
    output: Option<OutputModel>,
    first: Screen,
    first_processes: Seq<SystemProcessModel>,
    second: Screen,
    second_processes: Seq<SystemProcessModel>,
)
    requires
        output_lines(m, output, first.time).len() <= usize::MAX,
        composed(first, m, area, first.time, output, first_processes),
        composed(
            second,
            m.with_scroll_clamped(
                output_lines(m, output, first.time).len(),
                first.panels.output.height,
            ),
            area,
            second.time,
            output,
            second_processes,
        ),
    ensures
        ({
            let drawn = m.with_scroll_clamped(
                output_lines(m, output, first.time).len(),
                first.panels.output.height,
            );
            &&& drawn == (AppModel { output_scroll: drawn.output_scroll, ..m })
            &&& drawn.with_scroll_clamped(
                output_lines(drawn, output, second.time).len(),
                second.panels.output.height,
            ) == drawn
            &&& second.output.title@ == first.output.title@
        }),
{
    let drawn = m.with_scroll_clamped(
        output_lines(m, output, first.time).len(),
        first.panels.output.height,
    );
    lemma_line_count_is_timeless(drawn, output, first.time, second.time);
    assert(output_lines(drawn, output, first.time) == output_lines(m, output, first.time));
}

/// Composing the screen again, with nothing else changed, scrolls no further.
pub proof fn lemma_view_is_stable(m: AppModel, count: nat, height: u16)
    requires
        count <= usize::MAX,
    ensures
        m.with_scroll_clamped(count, height).with_scroll_clamped(count, height)
            == m.with_scroll_clamped(count, height),
        m.valid() ==> m.with_scroll_clamped(count, height).valid(),
{
}

/// The output is shown as scrolled by nothing at its start, by no more than all of it, and by all
/// of it at its end and nowhere else.
pub proof fn lemma_percentage(scroll: int, max: int)
    requires
        0 <= scroll <= max,
        0 < max,
    ensures
        0 <= scroll * 100 / max <= 100,
        scroll == max ==> scroll * 100 / max == 100,
        scroll == 0 ==> scroll * 100 / max == 0,
        scroll < max ==> scroll * 100 / max < 100,
{
    assert(0 <= scroll * 100 / max <= 100) by (nonlinear_arith)
        requires
            0 <= scroll <= max,
            0 < max,
    ;
    assert(scroll == max ==> scroll * 100 / max == 100) by (nonlinear_arith)
        requires
            0 < max,
    ;
    assert(scroll < max ==> scroll * 100 / max < 100) by (nonlinear_arith)
        requires
            0 <= scroll <= max,
            0 < max,
    ;
}

} // verus!
