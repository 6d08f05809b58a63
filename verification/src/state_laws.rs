//! What keys, processes and files do to the dashboard, told by what a user sees of it.

use vstd::prelude::*;

use crate::clock::Timestamp;
use crate::config::{config_text, lemma_config_round_trip, parsed, savable};
use crate::dashboard::{AppModel, DaemonReport, Key, KeyAction, StartEvent, StopEvent};
use crate::dashboard::{gone, launch, remembered};
use crate::project::{ConfigModel, ProcessUsage, ProjectModel, StatusModel};
use crate::text::words;
use crate::text_laws::{all_white, is_word, lemma_reading_words};

verus! {

/// Whether a status is that of a process, as a child or as a daemon.
pub open spec fn has_process(status: StatusModel) -> bool {
    status is Running || status is Daemon
}

/// The share of a processor that the process of a status takes.
pub open spec fn cpu_of(status: StatusModel) -> Seq<char> {
    match status {
        StatusModel::Running { cpu_usage, .. } => cpu_usage,
        StatusModel::Daemon { cpu_usage, .. } => cpu_usage,
        _ => Seq::empty(),
    }
}

/// The memory that the process of a status takes.
pub open spec fn memory_of(status: StatusModel) -> u64 {
    match status {
        StatusModel::Running { memory_usage, .. } => memory_usage,
        StatusModel::Daemon { memory_usage, .. } => memory_usage,
        _ => 0,
    }
}

/// The id of the process of a status.
pub open spec fn id_of(status: StatusModel) -> u32 {
    match status {
        StatusModel::Running { pid, .. } => pid,
        StatusModel::Daemon { pid, .. } => pid,
        _ => 0,
    }
}

/// The start of the process of a status.
pub open spec fn start_of(status: StatusModel) -> Timestamp
    recommends
        has_process(status),
{
    match status {
        StatusModel::Running { start_time, .. } => start_time,
        StatusModel::Daemon { start_time, .. } => start_time,
        _ => arbitrary(),
    }
}

/// Whether two states differ at most in the project at `index`.
pub open spec fn differ_only_at(a: AppModel, b: AppModel, index: int) -> bool {
    &&& a.projects.len() == b.projects.len()
    &&& a.running_processes.len() == b.running_processes.len()
    &&& forall|i: int|
        0 <= i < a.projects.len() && i != index ==> #[trigger] a.projects[i] == b.projects[i]
    &&& forall|i: int|
        0 <= i < a.running_processes.len() && i != index ==> #[trigger] a.running_processes[i]
            == b.running_processes[i]
    &&& a.selected_index == b.selected_index
    &&& a.should_quit == b.should_quit
    &&& a.output_scroll == b.output_scroll
    &&& a.auto_scroll == b.auto_scroll
    &&& a.show_system_processes == b.show_system_processes
}

/// The arrows move the selection by one project, as far as there are projects, and change nothing
/// else.
pub proof fn lemma_arrows_select(m: AppModel)
    requires
        m.projects.len() <= usize::MAX,
    ensures
        ({
            let up = m.after_key(Key::Up, false);
            let down = m.after_key(Key::Down, false);
            &&& up.selected_index == if m.selected_index > 0 {
                m.selected_index - 1
            } else {
                0
            }
            &&& up == (AppModel { selected_index: up.selected_index, ..m })
            &&& down.selected_index == if m.selected_index + 1 < m.projects.len() {
                m.selected_index + 1
            } else {
                m.selected_index as int
            }
            &&& down == (AppModel { selected_index: down.selected_index, ..m })
        }),
{
}

/// Page up and page down, and the arrows with shift, scroll the output by a line and end keeping
/// its end in view; at the top there is nothing to scroll up to. They change nothing else.
pub proof fn lemma_pages_scroll(m: AppModel, shift: bool)
    requires
        m.output_scroll < usize::MAX,
    ensures
        ({
            let up = m.after_key(Key::PageUp, shift);
            let down = m.after_key(Key::PageDown, shift);
            &&& m.output_scroll == 0 ==> up == m
            &&& m.output_scroll > 0 ==> up.output_scroll == m.output_scroll - 1
            &&& m.output_scroll > 0 ==> up == (AppModel {
                output_scroll: up.output_scroll,
                auto_scroll: false,
                ..m
            })
            &&& down.output_scroll == m.output_scroll + 1
            &&& down == (AppModel {
                output_scroll: down.output_scroll,
                auto_scroll: false,
                ..m
            })
            &&& m.after_key(Key::Up, true) == up
            &&& m.after_key(Key::Down, true) == down
        }),
{
}

/// `End` keeps the end of the output in view, `a` starts or ends that, `p` shows or hides the
/// processes of the system, and `q` closes the dashboard. They change nothing else, and no other
/// character but `d` changes anything.
pub proof fn lemma_letters(m: AppModel, c: char, shift: bool)
    ensures
        m.after_key(Key::End, shift) == (AppModel { output_scroll: 0, auto_scroll: true, ..m }),
        m.auto_scroll ==> m.after_key(Key::Char('a'), shift) == (AppModel {
            auto_scroll: false,
            ..m
        }),
        !m.auto_scroll ==> m.after_key(Key::Char('a'), shift) == (AppModel {
            output_scroll: 0,
            auto_scroll: true,
            ..m
        }),
        m.after_key(Key::Char('p'), shift) == (AppModel {
            show_system_processes: !m.show_system_processes,
            ..m
        }),
        m.after_key(Key::Char('q'), shift) == (AppModel { should_quit: true, ..m }),
        c != 'q' && c != 'a' && c != 'p' && c != 'd' ==> m.after_key(Key::Char(c), shift) == m,
        m.after_key(Key::Other, shift) == m,
{
}

/// `d` switches the daemon mode of the selected project, changes nothing else, and has the
/// configuration file written, where there is a selected project.
pub proof fn lemma_daemon_mode_key(m: AppModel, shift: bool)
    ensures
        ({
            let after = m.after_key(Key::Char('d'), shift);
            let at = m.selected_index as int;
            if m.selected_index < m.projects.len() {
                &&& m.action_of_key(Key::Char('d')) == KeyAction::SaveConfig
                &&& differ_only_at(m, after, at)
                &&& after.running_processes == m.running_processes
                &&& after.projects[at].status == m.projects[at].status
                &&& after.projects[at].config.daemon_mode == !m.projects[at].config.daemon_mode
                &&& after.projects[at].config.name == m.projects[at].config.name
                &&& after.projects[at].config.path == m.projects[at].config.path
                &&& after.projects[at].config.command == m.projects[at].config.command
            } else {
                after == m && m.action_of_key(Key::Char('d')) == KeyAction::Nothing
            }
        }),
{
}

/// The space key asks to stop the selected project exactly where it has a process, as a child or
/// as a daemon, and to start it otherwise. It changes nothing itself.
pub proof fn lemma_space_key(m: AppModel, shift: bool)
    requires
        m.selected_index < m.projects.len(),
    ensures
        has_process(m.projects[m.selected_index as int].status) ==> m.action_of_key(Key::Char(' '))
            == KeyAction::Stop(m.selected_index),
        !has_process(m.projects[m.selected_index as int].status) ==> m.action_of_key(
            Key::Char(' '),
        ) == KeyAction::Start(m.selected_index),
        m.after_key(Key::Char(' '), shift) == m,
{
}

/// `e` has the configuration file edited, and no key but `d`, `e` and space asks for anything.
pub proof fn lemma_other_keys_ask_for_nothing(m: AppModel, key: Key)
    ensures
        m.action_of_key(Key::Char('e')) == KeyAction::EditConfig,
        key != Key::Char('d') && key != Key::Char('e') && key != Key::Char(' ')
            ==> m.action_of_key(key) == KeyAction::Nothing,
{
}

/// Every key can be pressed, but for arrow down and space without a project to act on, and for
/// scrolling down where no further line can be counted.
pub proof fn lemma_keys_that_can_be_pressed(m: AppModel, key: Key, shift: bool)
    ensures
        m.projects.len() > 0 && m.selected_index < m.projects.len() && m.output_scroll < usize::MAX
            ==> m.takes_key(key, shift),
        key != Key::Down && key != Key::PageDown && key != Key::Char(' ') ==> m.takes_key(
            key,
            shift,
        ),
        m.projects.len() == 0 ==> !m.takes_key(Key::Down, false),
        m.selected_index >= m.projects.len() ==> !m.takes_key(Key::Char(' '), shift),
{
}

/// A project that was just started, in either mode, is stopped by the next press of the space
/// key, and started again by the one after that.
pub proof fn lemma_space_starts_and_stops(m: AppModel, pid: u32, now: Timestamp, later: Timestamp)
    requires
        m.valid(),
        m.selected_index < m.projects.len(),
        !has_process(m.projects[m.selected_index as int].status),
    ensures
        ({
            let at = m.selected_index as int;
            let spawned = m.after_start_event(at, StartEvent::Spawned(pid), now);
            let started = if m.projects[at].config.daemon_mode {
                spawned.after_start_event(at, StartEvent::Remembered(pid), later)
            } else {
                spawned
            };
            let ended = if m.projects[at].config.daemon_mode {
                StopEvent::Forgotten
            } else {
                StopEvent::Terminated
            };
            let over = started.after_stop_begun(at).after_stop_event(at, ended);
            &&& m.action_of_key(Key::Char(' ')) == KeyAction::Start(m.selected_index)
            &&& started.action_of_key(Key::Char(' ')) == KeyAction::Stop(m.selected_index)
            &&& over.action_of_key(Key::Char(' ')) == KeyAction::Start(m.selected_index)
        }),
{
}

/// A command is run as it is written, whatever the mode: its first word is the program, the words
/// after it are the arguments, and the directory is the path of the project. The same directory
/// and the command are remembered of a daemon.
pub proof fn lemma_what_is_run(
    c: ConfigModel,
    gap: Seq<char>,
    word: Seq<char>,
    rest: Seq<char>,
    pid: u32,
    now: Timestamp,
)
    requires
        c.command == gap + word + rest,
        all_white(gap),
        is_word(word),
        rest.len() > 0 ==> is_white_at_start(rest),
    ensures
        launch(c).program == word,
        launch(c).args == words(rest),
        launch(c).working_dir == c.path,
        launch(c).daemon == c.daemon_mode,
        remembered(c, pid, now).working_dir == c.path,
        remembered(c, pid, now).command == c.command,
        remembered(c, pid, now).project_name == c.name,
        remembered(c, pid, now).pid == pid,
        remembered(c, pid, now).start_time == now,
{
    lemma_reading_words(gap, word, rest);
    assert((seq![word] + words(rest)).skip(1) =~= words(rest));
}

/// Whether a text starts with white space.
pub open spec fn is_white_at_start(s: Seq<char>) -> bool {
    s.len() > 0 && crate::text::is_white(s[0])
}

/// A command of white space alone lists the directory of the project.
pub proof fn lemma_blank_command(c: ConfigModel)
    requires
        all_white(c.command),
    ensures
        launch(c).program == "ls"@,
        launch(c).args.len() == 0,
        launch(c).working_dir == c.path,
        launch(c).daemon == c.daemon_mode,
{
    reveal_strlit("ls");
    lemma_reading_words(c.command, "ls"@, Seq::empty());
}

/// Neither the daemon mode nor the name of a project makes a difference to what is run and where.
pub proof fn lemma_mode_changes_nothing_run(c: ConfigModel, d: ConfigModel)
    requires
        c.command == d.command,
        c.path == d.path,
    ensures
        launch(c).program == launch(d).program,
        launch(c).args == launch(d).args,
        launch(c).working_dir == launch(d).working_dir,
        launch(c).working_dir == c.path,
{
}

/// A project that is declared in the configuration file is run in the path that is declared.
pub proof fn lemma_declared_path_is_run_in(cs: Seq<ConfigModel>, i: int)
    requires
        0 <= i < cs.len(),
        forall|k: int| 0 <= k < cs.len() ==> savable(#[trigger] cs[k]),
    ensures
        ({
            let m = AppModel::opened(parsed(config_text(cs)));
            &&& m.projects.len() == cs.len()
            &&& m.projects[i].config == cs[i]
            &&& launch(m.projects[i].config).working_dir == cs[i].path
        }),
{
    lemma_config_round_trip(cs);
}

/// A child that was started is running with its id, its time of start and no figures yet, and its
/// process is held. Nothing else has changed.
pub proof fn lemma_child_started(m: AppModel, index: int, pid: u32, now: Timestamp)
    requires
        m.running_processes.len() == m.projects.len(),
        0 <= index < m.projects.len(),
        !m.projects[index].config.daemon_mode,
    ensures
        ({
            let after = m.after_start_event(index, StartEvent::Spawned(pid), now);
            &&& differ_only_at(m, after, index)
            &&& after.running_processes[index]
            &&& after.projects[index].config == m.projects[index].config
            &&& after.projects[index].status is Running
            &&& id_of(after.projects[index].status) == pid
            &&& start_of(after.projects[index].status) == now
            &&& cpu_of(after.projects[index].status) == "0.0"@
            &&& memory_of(after.projects[index].status) == 0
        }),
{
}

/// A daemon that was started changes nothing until it is remembered; then it has its id, its time
/// of start and no figures yet, and its process is not held.
pub proof fn lemma_daemon_started(m: AppModel, index: int, pid: u32, now: Timestamp)
    requires
        m.running_processes.len() == m.projects.len(),
        0 <= index < m.projects.len(),
    ensures
        m.projects[index].config.daemon_mode ==> m.after_start_event(
            index,
            StartEvent::Spawned(pid),
            now,
        ) == m,
        ({
            let after = m.after_start_event(index, StartEvent::Remembered(pid), now);
            &&& differ_only_at(m, after, index)
            &&& after.running_processes == m.running_processes
            &&& after.projects[index].config == m.projects[index].config
            &&& after.projects[index].status is Daemon
            &&& id_of(after.projects[index].status) == pid
            &&& start_of(after.projects[index].status) == now
            &&& cpu_of(after.projects[index].status) == "0.0"@
            &&& memory_of(after.projects[index].status) == 0
        }),
{
}

/// What could not be done is told with what was tried and why it failed. Nothing else has changed,
/// and no child process is held or let go of.
pub proof fn lemma_failures(m: AppModel, index: int, error: String, now: Timestamp)
    requires
        m.running_processes.len() == m.projects.len(),
        0 <= index < m.projects.len(),
    ensures
        ({
            let spawn = m.after_start_event(index, StartEvent::SpawnFailed(error), now);
            let save = m.after_start_event(index, StartEvent::NotRemembered(error), now);
            let stop = m.after_stop_event(index, StopEvent::SignalFailed(error));
            &&& m.projects[index].config.daemon_mode ==> spawn.projects[index].status
                == StatusModel::Error("Failed to start daemon: "@ + error@)
            &&& !m.projects[index].config.daemon_mode ==> spawn.projects[index].status
                == StatusModel::Error("Failed to start: "@ + error@)
            &&& save.projects[index].status == StatusModel::Error(
                "Failed to save daemon info: "@ + error@,
            )
            &&& stop.projects[index].status == StatusModel::Error(
                "Failed to stop daemon: "@ + error@,
            )
            &&& differ_only_at(m, spawn, index) && spawn.projects[index].config
                == m.projects[index].config && spawn.running_processes == m.running_processes
            &&& differ_only_at(m, save, index) && save.projects[index].config
                == m.projects[index].config && save.running_processes == m.running_processes
            &&& differ_only_at(m, stop, index) && stop.projects[index].config
                == m.projects[index].config && stop.running_processes == m.running_processes
        }),
{
}

/// A project whose process has ended is stopped, with its configuration as it was. To begin with,
/// a daemon stays what it is, a child whose process is held is let go of, and a project without a
/// process is stopped. Nothing else changes.
pub proof fn lemma_stopping(m: AppModel, index: int)
    requires
        m.running_processes.len() == m.projects.len(),
        0 <= index < m.projects.len(),
    ensures
        ({
            let begun = m.after_stop_begun(index);
            let status = m.projects[index].status;
            &&& differ_only_at(m, begun, index)
            &&& begun.projects[index].config == m.projects[index].config
            &&& status is Daemon ==> begun == m
            &&& status is Running && m.running_processes[index] ==> {
                &&& begun.projects[index].status == status
                &&& !begun.running_processes[index]
            }
            &&& !has_process(status) ==> begun.projects[index].status is Stopped
                && begun.running_processes == m.running_processes
        }),
        ({
            let forgotten = m.after_stop_event(index, StopEvent::Forgotten);
            let terminated = m.after_stop_event(index, StopEvent::Terminated);
            &&& m.after_stop_event(index, StopEvent::Signalled) == m
            &&& forgotten == terminated
            &&& differ_only_at(m, forgotten, index)
            &&& forgotten.running_processes == m.running_processes
            &&& forgotten.projects[index].config == m.projects[index].config
            &&& forgotten.projects[index].status is Stopped
        }),
        m.after_stop_begun(m.projects.len() as int) == m,
{
}

/// After an update every project whose process is still there, child or daemon, is what it was,
/// with exactly the share of a processor and the memory that were reported, whatever figures it
/// had before. One whose process is gone is stopped, and no child process of it is held. A project
/// without a process is as it was, and so is everything else.
pub proof fn lemma_update(m: AppModel, usages: Seq<Option<ProcessUsage>>, i: int)
    requires
        m.running_processes.len() == m.projects.len(),
        usages.len() == m.projects.len(),
        0 <= i < m.projects.len(),
    ensures
        ({
            let after = m.with_usages(usages);
            let (old_status, status) = (m.projects[i].status, after.projects[i].status);
            &&& after.projects.len() == m.projects.len()
            &&& after.running_processes.len() == m.running_processes.len()
            &&& after == (AppModel {
                projects: after.projects,
                running_processes: after.running_processes,
                ..m
            })
            &&& after.projects[i].config == m.projects[i].config
            &&& has_process(old_status) && usages[i] is Some ==> {
                &&& status is Running <==> old_status is Running
                &&& status is Daemon <==> old_status is Daemon
                &&& cpu_of(status) == usages[i]->0.cpu_usage@
                &&& memory_of(status) == usages[i]->0.memory_usage
                &&& id_of(status) == id_of(old_status)
                &&& start_of(status) == start_of(old_status)
                &&& after.running_processes[i] == m.running_processes[i]
            }
            &&& has_process(old_status) && usages[i] is None ==> status is Stopped
            &&& old_status is Running && usages[i] is None ==> !after.running_processes[i]
            &&& !(old_status is Running) ==> after.running_processes[i] == m.running_processes[i]
            &&& !has_process(old_status) ==> status == old_status
        }),
{
}

/// Which figures are shown after an update depends on the last report alone: two updates leave
/// the figures of the second.
pub proof fn lemma_last_update_counts(
    m: AppModel,
    first: Seq<Option<ProcessUsage>>,
    second: Seq<Option<ProcessUsage>>,
    i: int,
)
    requires
        m.running_processes.len() == m.projects.len(),
        first.len() == m.projects.len(),
        second.len() == m.projects.len(),
        0 <= i < m.projects.len(),
        first[i] is Some,
    ensures
        m.with_usages(first).with_usages(second).projects[i] == m.with_usages(second).projects[i],
{
}

/// A dashboard that opens takes each project whose daemon is remembered and alive for that daemon,
/// with the id and the time of start that are remembered and the figures that are reported. All
/// else is as it was.
pub proof fn lemma_discovery(m: AppModel, reports: Seq<Option<DaemonReport>>, i: int)
    requires
        reports.len() == m.projects.len(),
        0 <= i < m.projects.len(),
    ensures
        ({
            let after = m.with_daemons(reports);
            let status = after.projects[i].status;
            &&& after == (AppModel { projects: after.projects, ..m })
            &&& after.projects.len() == m.projects.len()
            &&& after.projects[i].config == m.projects[i].config
            &&& reports[i] is Some && reports[i]->0.usage is Some ==> {
                &&& status is Daemon
                &&& id_of(status) == reports[i]->0.info.pid
                &&& start_of(status) == reports[i]->0.info.start_time
                &&& cpu_of(status) == reports[i]->0.usage->0.cpu_usage@
                &&& memory_of(status) == reports[i]->0.usage->0.memory_usage
            }
            &&& !(reports[i] is Some && reports[i]->0.usage is Some) ==> status
                == m.projects[i].status
        }),
{
}

/// Exactly the daemons that are remembered and whose process is gone are forgotten: their names
/// are those of their projects, in the order of the projects.
pub proof fn lemma_gone(projects: Seq<ProjectModel>, reports: Seq<Option<DaemonReport>>, n: int)
    requires
        0 <= n < reports.len(),
        reports.len() == projects.len(),
    ensures
        gone(projects, reports, 0).len() == 0,
        reports[n] is Some && reports[n]->0.usage is None ==> gone(projects, reports, n + 1)
            == gone(projects, reports, n) + seq![projects[n].config.name],
        !(reports[n] is Some && reports[n]->0.usage is None) ==> gone(projects, reports, n + 1)
            == gone(projects, reports, n),
{
}

/// A dashboard opens with every declared project stopped, in the order of the file, the first one
/// selected, no child process held, the end of the output kept in view and the processes of the
/// system shown.
pub proof fn lemma_opening(content: Seq<char>)
    ensures
        ({
            let m = AppModel::opened(parsed(content));
            &&& m.projects.len() == parsed(content).len()
            &&& forall|i: int|
                0 <= i < m.projects.len() ==> (#[trigger] m.projects[i]).config == parsed(content)[i]
                    && m.projects[i].status is Stopped
            &&& m.running_processes.len() == m.projects.len()
            &&& forall|i: int| 0 <= i < m.projects.len() ==> !(#[trigger] m.running_processes[i])
            &&& m.selected_index == 0
            &&& !m.should_quit
            &&& m.output_scroll == 0
            &&& m.auto_scroll
            &&& m.show_system_processes
        }),
{
}

/// After an edit of the configuration file the projects are those that it declares, all stopped.
/// The selection stays where it is if there is a project there, and is the first one otherwise.
/// Nothing else has changed.
pub proof fn lemma_editing(m: AppModel, content: Seq<char>)
    ensures
        ({
            let after = m.reloaded(parsed(content));
            &&& after.projects.len() == parsed(content).len()
            &&& forall|i: int|
                0 <= i < after.projects.len() ==> (#[trigger] after.projects[i]).config == parsed(
                    content,
                )[i] && after.projects[i].status is Stopped
            &&& after.running_processes.len() == after.projects.len()
            &&& forall|i: int|
                0 <= i < after.projects.len() ==> !(#[trigger] after.running_processes[i])
            &&& m.selected_index < after.projects.len() ==> after.selected_index
                == m.selected_index
            &&& m.selected_index >= after.projects.len() ==> after.selected_index == 0
            &&& after.should_quit == m.should_quit
            &&& after.output_scroll == m.output_scroll
            &&& after.auto_scroll == m.auto_scroll
            &&& after.show_system_processes == m.show_system_processes
        }),
{
}

/// The projects that are stopped on closing stand in their order, each once.
pub proof fn lemma_running_in_order(m: AppModel, n: int)
    requires
        0 <= n <= m.projects.len() <= usize::MAX,
    ensures
        forall|i: int, j: int|
            0 <= i < j < m.running(n).len() ==> m.running(n)[i] < m.running(n)[j],
        forall|i: int| 0 <= i < m.running(n).len() ==> (#[trigger] m.running(n)[i]) < n,
    decreases n,
{
    if n > 0 {
        lemma_running_in_order(m, n - 1);
        let (before, all) = (m.running(n - 1), m.running(n));
        assert forall|i: int| 0 <= i < before.len() implies #[trigger] all[i] == before[i] by {}
        assert forall|i: int, j: int| 0 <= i < j < all.len() implies all[i] < all[j] by {
            assert(before[i] < n - 1);
            if j < before.len() {
                assert(before[i] < before[j]);
            }
        }
    }
}

/// A project is looked up by the id of its process exactly where it has one, child or daemon.
pub proof fn lemma_looked_up(status: StatusModel)
    ensures
        has_process(status) ==> status.pid() == Some(id_of(status)),
        !has_process(status) ==> status.pid() is None,
        has_process(status) ==> status.start_time() == Some(start_of(status)),
{
}

/// A request to close is taken note of, and changes nothing else; without one nothing changes.
pub proof fn lemma_request_to_close(m: AppModel)
    ensures
        m.after_shutdown_request(true) == (AppModel { should_quit: true, ..m }),
        m.after_shutdown_request(false) == m,
{
}

} // verus!
