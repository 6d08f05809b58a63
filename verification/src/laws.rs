//! What holds of the dashboard as a whole, over several of its steps.

use vstd::prelude::*;
use vstd::utf8::is_ascii_chars;

use crate::clock::Timestamp;
use crate::config::{config_text, lemma_config_round_trip, parsed, savable};
use crate::dashboard::{AppModel, DaemonReport, Key, StartEvent, StopEvent};
use crate::dashboard::{discovered, launch, remembered, started_daemon, started_running, updated};
use crate::project::{ConfigModel, ProcessUsage, ProjectModel, StatusModel};
use crate::project::{configs, stopped};
use crate::screen::lemma_ascii_errors_are_displayable;
use crate::text::{is_white, lemma_words, words};

verus! {

/// No key leads out of the valid states: the selection stays on a project, and a child process
/// is held for exactly the running projects.
pub proof fn lemma_keys_keep_state_valid(m: AppModel, key: Key, shift: bool)
    requires
        m.valid(),
        m.takes_key(key, shift),
    ensures
        m.after_key(key, shift).valid(),
{
}

/// Once the dashboard is about to close, no key keeps it open; and no key but `q` closes it.
pub proof fn lemma_quitting_is_final(m: AppModel, key: Key, shift: bool)
    ensures
        m.should_quit ==> m.after_key(key, shift).should_quit,
        m.after_key(key, shift).should_quit ==> m.should_quit || key == Key::Char('q'),
{
}

/// A key changes no status and lets go of no child process; of the configuration it changes at
/// most the daemon mode of the selected project.
pub proof fn lemma_keys_leave_processes_alone(m: AppModel, key: Key, shift: bool)
    ensures
        m.after_key(key, shift).running_processes == m.running_processes,
        m.after_key(key, shift).projects.len() == m.projects.len(),
        forall|i: int|
            0 <= i < m.projects.len() ==> (#[trigger] m.after_key(key, shift).projects[i]).status
                == m.projects[i].status,
        forall|i: int|
            0 <= i < m.projects.len() ==> (#[trigger] m.after_key(key, shift).projects[i]).config
                == m.projects[i].config || (i == m.selected_index && key == Key::Char('d')
                && m.after_key(key, shift).projects[i].config == (ConfigModel {
                daemon_mode: !m.projects[i].config.daemon_mode,
                ..m.projects[i].config
            })),
{
}

/// Pressing a switch twice changes nothing: neither the list of system processes nor the daemon
/// mode of the selected project.
pub proof fn lemma_switching_twice_changes_nothing(m: AppModel, shift: bool)
    ensures
        m.after_key(Key::Char('p'), shift).after_key(Key::Char('p'), shift) == m,
        m.after_key(Key::Char('d'), shift).after_key(Key::Char('d'), shift) == m,
{
    assert(m.after_key(Key::Char('d'), shift).after_key(Key::Char('d'), shift) =~= m);
}

/// The arrows undo each other: down and up again leads back wherever there is a project below,
/// and up and down again wherever there is one above.
pub proof fn lemma_arrows_undo_each_other(m: AppModel)
    requires
        m.projects.len() <= usize::MAX,
    ensures
        m.selected_index < m.projects.len() - 1 ==> m.after_key(Key::Down, false).after_key(
            Key::Up,
            false,
        ) == m,
        0 < m.selected_index < m.projects.len() ==> m.after_key(Key::Up, false).after_key(
            Key::Down,
            false,
        ) == m,
{
}

/// Scrolling by hand ends keeping the end of the output in view, `End` resumes it, and scrolling
/// up undoes scrolling down.
pub proof fn lemma_scrolling(m: AppModel, shift: bool)
    requires
        m.output_scroll < usize::MAX,
    ensures
        !m.after_key(Key::PageDown, shift).auto_scroll,
        m.output_scroll > 0 ==> !m.after_key(Key::PageUp, shift).auto_scroll,
        m.after_key(Key::End, shift).auto_scroll,
        m.after_key(Key::PageDown, shift).after_key(Key::PageUp, shift).output_scroll
            == m.output_scroll,
        m.after_key(Key::Down, true) == m.after_key(Key::PageDown, shift),
        m.after_key(Key::Up, true) == m.after_key(Key::PageUp, shift),
{
}

/// The configuration file that is written after a switch of the daemon mode declares the
/// projects with that switch, and a dashboard opened on it has just those projects.
pub proof fn lemma_switched_daemon_mode_is_saved(m: AppModel, shift: bool)
    requires
        forall|i: int| 0 <= i < m.projects.len() ==> savable((#[trigger] m.projects[i]).config),
    ensures
        ({
            let after = m.after_key(Key::Char('d'), shift);
            &&& parsed(config_text(configs(after.projects))) == configs(after.projects)
            &&& configs(
                AppModel::opened(parsed(config_text(configs(after.projects)))).projects,
            ) == configs(after.projects)
        }),
{
    let after = m.after_key(Key::Char('d'), shift);
    let cs = configs(after.projects);
    assert forall|i: int| 0 <= i < cs.len() implies savable(#[trigger] cs[i]) by {
        assert(savable(m.projects[i].config));
    }
    lemma_config_round_trip(cs);
    assert(configs(AppModel::opened(cs).projects) =~= cs);
}

/// A project that is started and stopped again is left stopped, with nothing else changed and no
/// child process held, whether it runs as a child or as a daemon.
pub proof fn lemma_start_and_stop(
    m: AppModel,
    index: int,
    pid: u32,
    now: Timestamp,
    later: Timestamp,
)
    requires
        m.valid(),
        0 <= index < m.projects.len(),
        m.projects[index].status.pid() is None,
    ensures
        ({
            let spawned = m.after_start_event(index, StartEvent::Spawned(pid), now);
            if m.projects[index].config.daemon_mode {
                let started = spawned.after_start_event(index, StartEvent::Remembered(pid), later);
                &&& spawned == m
                &&& started.valid()
                &&& started.projects[index].status == started_daemon(pid, later)
                &&& started.after_stop_begun(index) == started
                &&& started.after_stop_event(index, StopEvent::Signalled).after_stop_event(
                    index,
                    StopEvent::Forgotten,
                ) == m.with_status(index, StatusModel::Stopped)
            } else {
                &&& spawned.valid()
                &&& spawned.projects[index].status == started_running(pid, now)
                &&& spawned.running_processes[index]
                &&& spawned.after_stop_begun(index).after_stop_event(index, StopEvent::Terminated)
                    == m.with_status(index, StatusModel::Stopped)
            }
        }),
        m.with_status(index, StatusModel::Stopped).valid(),
{
    let spawned = m.after_start_event(index, StartEvent::Spawned(pid), now);
    if m.projects[index].config.daemon_mode {
        let started = spawned.after_start_event(index, StartEvent::Remembered(pid), later);
        assert(started.after_stop_event(index, StopEvent::Signalled).after_stop_event(
            index,
            StopEvent::Forgotten,
        ) =~= m.with_status(index, StatusModel::Stopped));
    } else {
        assert(spawned.after_stop_begun(index).after_stop_event(index, StopEvent::Terminated)
            =~= m.with_status(index, StatusModel::Stopped));
    }
}

/// What happens to one project leaves the others as they are.
pub proof fn lemma_projects_are_independent(
    m: AppModel,
    index: int,
    other: int,
    start: StartEvent,
    stop: StopEvent,
    now: Timestamp,
)
    requires
        0 <= index < m.projects.len(),
        0 <= other < m.projects.len(),
        m.running_processes.len() == m.projects.len(),
        index != other,
    ensures
        m.after_start_event(index, start, now).projects[other] == m.projects[other],
        m.after_start_event(index, start, now).running_processes[other]
            == m.running_processes[other],
        m.after_stop_event(index, stop).projects[other] == m.projects[other],
        m.after_stop_event(index, stop).running_processes == m.running_processes,
{
}

/// An attempt to start or stop that fails is told by the status, whose message ends with the
/// reason.
pub proof fn lemma_failures_are_told(m: AppModel, index: int, error: String, now: Timestamp)
    requires
        0 <= index < m.projects.len(),
    ensures
        ({
            let a = m.after_start_event(index, StartEvent::SpawnFailed(error), now);
            let b = m.after_start_event(index, StartEvent::NotRemembered(error), now);
            let c = m.after_stop_event(index, StopEvent::SignalFailed(error));
            &&& a.projects[index].status matches StatusModel::Error(s) && error@.is_suffix_of(s)
            &&& b.projects[index].status matches StatusModel::Error(s) && error@.is_suffix_of(s)
            &&& c.projects[index].status matches StatusModel::Error(s) && error@.is_suffix_of(s)
        }),
{
    let p = if m.projects[index].config.daemon_mode {
        "Failed to start daemon: "@
    } else {
        "Failed to start: "@
    };
    let q = "Failed to save daemon info: "@;
    let r = "Failed to stop daemon: "@;
    assert((p + error@).skip(p.len() as int) =~= error@);
    assert((q + error@).skip(q.len() as int) =~= error@);
    assert((r + error@).skip(r.len() as int) =~= error@);
}

/// The errors of daemons can always be shown in the list of projects, and so can the error of a
/// child process whose reason starts with ASCII characters.
pub proof fn lemma_failures_can_be_shown(m: AppModel, index: int, error: String, now: Timestamp)
    requires
        m.presentable(),
        0 <= index < m.projects.len(),
    ensures
        m.after_start_event(index, StartEvent::NotRemembered(error), now).presentable(),
        m.after_stop_event(index, StopEvent::SignalFailed(error)).presentable(),
        m.projects[index].config.daemon_mode || is_ascii_chars(error@) ==> m.after_start_event(
            index,
            StartEvent::SpawnFailed(error),
            now,
        ).presentable(),
{
    reveal_strlit("Failed to start daemon: ");
    reveal_strlit("Failed to start: ");
    reveal_strlit("Failed to save daemon info: ");
    reveal_strlit("Failed to stop daemon: ");
    lemma_ascii_errors_are_displayable("Failed to save daemon info: "@ + error@);
    lemma_ascii_errors_are_displayable("Failed to stop daemon: "@ + error@);
    lemma_ascii_errors_are_displayable("Failed to start daemon: "@ + error@);
    if is_ascii_chars(error@) {
        lemma_ascii_errors_are_displayable("Failed to start: "@ + error@);
    }
    let a = m.after_start_event(index, StartEvent::NotRemembered(error), now);
    let b = m.after_stop_event(index, StopEvent::SignalFailed(error));
    let c = m.after_start_event(index, StartEvent::SpawnFailed(error), now);
    assert forall|i: int| 0 <= i < m.projects.len() && i != index implies #[trigger] a.projects[i]
        == m.projects[i] && b.projects[i] == m.projects[i] && c.projects[i] == m.projects[i] by {}
}

/// Stopping a project leads from a valid state to a valid one, whatever the project was doing:
/// a running project gives up its child process on the way.
pub proof fn lemma_stopping_keeps_state_valid(m: AppModel, index: int)
    requires
        m.valid(),
        0 <= index < m.projects.len(),
    ensures
        m.projects[index].status is Running ==> m.running_processes[index],
        m.projects[index].status is Running ==> m.after_stop_begun(index).after_stop_event(
            index,
            StopEvent::Terminated,
        ).valid(),
        m.projects[index].status is Daemon ==> m.after_stop_begun(index) == m
            && m.after_stop_event(index, StopEvent::Forgotten).valid(),
        m.projects[index].status.pid() is None ==> m.after_stop_begun(index).valid(),
{
}

/// Which of the first `n` projects are running.
proof fn lemma_running(m: AppModel, n: int, i: int)
    requires
        0 <= n <= m.projects.len() <= usize::MAX,
        0 <= i < m.projects.len(),
    ensures
        m.running(n).contains(i as usize) <==> i < n && m.projects[i].status is Running,
    decreases n,
{
    if n > 0 {
        lemma_running(m, n - 1, i);
        let before = m.running(n - 1);
        if m.projects[n - 1].status is Running {
            let after = before.push((n - 1) as usize);
            if before.contains(i as usize) {
                let k = choose|k: int| 0 <= k < before.len() && before[k] == i as usize;
                assert(after[k] == i as usize);
            }
            assert(after[before.len() as int] == (n - 1) as usize);
            if after.contains(i as usize) {
                let k = choose|k: int| 0 <= k < after.len() && after[k] == i as usize;
                if k < before.len() {
                    assert(before[k] == i as usize);
                }
            }
        }
    }
}

/// Closing the dashboard stops exactly the projects that run as its children, so it leaves daemons
/// and their files alone.
pub proof fn lemma_closing_stops_children(m: AppModel, i: int)
    requires
        0 <= i < m.projects.len() <= usize::MAX,
    ensures
        m.running(m.projects.len() as int).contains(i as usize) <==> m.projects[i].status is Running,
        m.projects[i].status is Daemon ==> !m.running(m.projects.len() as int).contains(i as usize),
{
    lemma_running(m, m.projects.len() as int, i);
}

/// Stopping a project when the dashboard closes changes no daemon: it is a child process that is
/// held, and its end leaves the daemon of any other project as it is.
pub proof fn lemma_closing_leaves_daemons_alone(m: AppModel, child: int, daemon: int)
    requires
        m.valid(),
        0 <= child < m.projects.len() <= usize::MAX,
        0 <= daemon < m.projects.len(),
        m.running(m.projects.len() as int).contains(child as usize),
        m.projects[daemon].status is Daemon,
    ensures
        m.running_processes[child],
        m.after_stop_begun(child).after_stop_event(child, StopEvent::Terminated).projects[daemon]
            == m.projects[daemon],
{
    lemma_running(m, m.projects.len() as int, child);
}

/// The state with the first `n` projects stopped, where they run as children.
spec fn without_children(m: AppModel, n: int) -> AppModel {
    AppModel {
        projects: Seq::new(
            m.projects.len(),
            |k: int|
                if k < n && m.projects[k].status is Running {
                    ProjectModel { status: StatusModel::Stopped, ..m.projects[k] }
                } else {
                    m.projects[k]
                },
        ),
        running_processes: Seq::new(
            m.running_processes.len(),
            |k: int| m.running_processes[k] && !(k < n && m.projects[k].status is Running),
        ),
        ..m
    }
}

/// Stopping the running ones among the first `n` projects does just that.
proof fn lemma_children_stopped(m: AppModel, n: int)
    requires
        m.valid(),
        0 <= n <= m.projects.len() <= usize::MAX,
    ensures
        m.after_children_stopped(m.running(n)) == without_children(m, n),
    decreases n,
{
    let after = without_children(m, n);
    if n == 0 {
        assert(after =~= m);
    } else {
        lemma_children_stopped(m, n - 1);
        let before = without_children(m, n - 1);
        if m.projects[n - 1].status is Running {
            let list = m.running(n);
            assert(list.drop_last() =~= m.running(n - 1));
            assert(before.projects[n - 1] == m.projects[n - 1]);
            assert(before.running_processes[n - 1]);
            assert(before.after_stop_begun(n - 1).after_stop_event(n - 1, StopEvent::Terminated)
                =~= after);
        } else {
            assert(before =~= after);
        }
    }
}

/// Once the dashboard has closed, no project runs as its child: those that did are stopped, with
/// no child process held. All other projects are as they were, daemons among them, and so is
/// everything else.
pub proof fn lemma_closing(m: AppModel)
    requires
        m.valid(),
        m.projects.len() <= usize::MAX,
    ensures
        ({
            let closed = m.after_children_stopped(m.running(m.projects.len() as int));
            &&& closed.valid()
            &&& closed.projects.len() == m.projects.len()
            &&& forall|i: int|
                0 <= i < m.projects.len() ==> (#[trigger] closed.projects[i]) == if m.projects[i].status
                    is Running {
                    ProjectModel { status: StatusModel::Stopped, ..m.projects[i] }
                } else {
                    m.projects[i]
                }
            &&& forall|i: int|
                0 <= i < m.projects.len() ==> !(#[trigger] closed.running_processes[i])
            &&& closed == (AppModel {
                projects: closed.projects,
                running_processes: closed.running_processes,
                ..m
            })
        }),
{
    lemma_children_stopped(m, m.projects.len() as int);
    let closed = without_children(m, m.projects.len() as int);
    assert forall|i: int| 0 <= i < m.projects.len() implies !(
    #[trigger] closed.running_processes[i]) by {
        assert(m.running_processes[i] == (m.projects[i].status is Running));
    }
}

/// The program and the arguments that a command is taken apart into are never empty, and hold no
/// white space.
pub proof fn lemma_commands_are_words(c: ConfigModel)
    ensures
        launch(c).program.len() > 0,
        forall|i: int|
            0 <= i < launch(c).program.len() ==> !is_white(#[trigger] launch(c).program[i]),
        forall|k: int|
            #![trigger launch(c).args[k]]
            0 <= k < launch(c).args.len() ==> launch(c).args[k].len() > 0 && forall|i: int|
                0 <= i < launch(c).args[k].len() ==> !is_white(#[trigger] launch(c).args[k][i]),
{
    lemma_words(c.command);
    reveal_strlit("ls");
    assert forall|k: int| #![trigger launch(c).args[k]] 0 <= k < launch(c).args.len() implies launch(
        c,
    ).args[k].len() > 0 && forall|i: int|
        0 <= i < launch(c).args[k].len() ==> !is_white(#[trigger] launch(c).args[k][i]) by {
        assert(launch(c).args[k] == words(c.command)[k + 1]);
    }
}

/// Projects of different names have different places for the file of their daemon. Places may
/// still lead to one file where a name holds a separator.
pub proof fn lemma_daemon_places_are_distinct(dir: Seq<Seq<char>>, a: Seq<char>, b: Seq<char>)
    requires
        dir.push(a + ".json"@) == dir.push(b + ".json"@),
    ensures
        a == b,
{
    assert(dir.push(a + ".json"@).last() == a + ".json"@);
    assert(dir.push(b + ".json"@).last() == b + ".json"@);
    assert(a =~= (a + ".json"@).take(a.len() as int));
    assert(b =~= (b + ".json"@).take(b.len() as int));
}

/// A daemon is found again: a dashboard that opens later, reads what was remembered of the daemon
/// and finds its process alive, shows the project as that daemon, started when it was.
pub proof fn lemma_daemon_is_found_again(
    c: ConfigModel,
    pid: u32,
    now: Timestamp,
    report: DaemonReport,
    usage: ProcessUsage,
)
    requires
        report.info@ == remembered(c, pid, now),
        report.usage == Some(usage),
    ensures
        discovered(StatusModel::Stopped, Some(report)) == (StatusModel::Daemon {
            pid,
            start_time: now,
            cpu_usage: usage.cpu_usage@,
            memory_usage: usage.memory_usage,
        }),
{
}

/// A dashboard that was just opened is valid, and stays so when the daemons are looked for.
pub proof fn lemma_opening_is_valid(cs: Seq<ConfigModel>, reports: Seq<Option<DaemonReport>>)
    requires
        reports.len() == cs.len(),
    ensures
        AppModel::opened(cs).valid(),
        AppModel::opened(cs).with_daemons(reports).valid(),
{
    let m = AppModel::opened(cs).with_daemons(reports);
    assert forall|i: int| 0 <= i < m.projects.len() implies #[trigger] m.running_processes[i] == (
    m.projects[i].status is Running) by {
        assert(!m.running_processes[i]);
    }
}

/// Reading the figures of the processes changes no project into another process: one that is
/// still there keeps its id and the time of its start, one that is gone is stopped, and a project
/// without a process stays as it is.
pub proof fn lemma_update_keeps_processes_apart(status: StatusModel, usage: Option<ProcessUsage>)
    ensures
        usage is Some ==> updated(status, usage).pid() == status.pid(),
        usage is None && status.pid() is Some ==> updated(status, usage) == StatusModel::Stopped,
        status.pid() is None ==> updated(status, usage) == status,
        usage is Some ==> updated(status, usage).start_time() == status.start_time(),
        usage is Some ==> (updated(status, usage) is Daemon <==> status is Daemon),
{
}

/// After an edit of the configuration file nothing is running and the selection is on a project,
/// where there is one.
pub proof fn lemma_editing_starts_over(m: AppModel, content: Seq<char>)
    ensures
        m.reloaded(parsed(content)).valid(),
        m.reloaded(parsed(content)).projects == stopped(parsed(content)),
        parsed(content).len() > 0 ==> m.reloaded(parsed(content)).selected_index < parsed(
            content,
        ).len(),
{
}

} // verus!
