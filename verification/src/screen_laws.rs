//! What stands on the screen, told line by line by what is known of the projects.

use vstd::prelude::*;
use vstd::utf8::{encode_utf8, is_char_boundary};

use crate::clock::{Timestamp, uptime_text};
use crate::dashboard::AppModel;
use crate::layout::Area;
use crate::output::OutputModel;
use crate::output_laws::{lemma_what_is_shown, shown_lines};
use crate::process_laws::lemma_listed_processes;
use crate::processes::{MAX_LISTED, SystemProcessModel, first, ranked, targeted};
use crate::project::{ConfigModel, ProjectModel, StatusModel};
use crate::screen::{Screen, composed, displayable, entry_models, header, max_scroll};
use crate::screen::{mebibytes, output_heading, output_keys, output_lines, panel_title};
use crate::screen::{process_header, project_entries, project_lines, rule, scroll_position};
use crate::screen::{shortened, shown_pid, system_entries, system_entry, visible, written};
use crate::text::{decimal, is_line, join, lines};
use crate::text_laws::{lemma_reading_lines, lemma_writing_numbers};

verus! {

/// With more lines than rows and the output scrolled by hand, the rows show the lines from the
/// position on, whatever it is: the first one at the position, and so on. The title tells how far
/// that is, in hundredths of how far it can be. The position stays what it is.
pub proof fn lemma_scrolled_by_hand(m: AppModel, all: Seq<Seq<char>>, height: u16)
    requires
        height >= 2,
        all.len() > height - 2,
        !m.auto_scroll,
        m.output_scroll <= all.len() - (height - 2),
    ensures
        ({
            let count = all.len();
            let rows = height - 2;
            let at = scroll_position(m, count, height);
            let shown = visible(all, at, height);
            &&& at == m.output_scroll
            &&& shown.len() == rows
            &&& forall|i: int| 0 <= i < rows ==> #[trigger] shown[i] == all[m.output_scroll + i]
            &&& max_scroll(count, height) == count - rows
            &&& panel_title(at, max_scroll(count, height)) == "Output ("@ + decimal(
                m.output_scroll * 100 / (count - rows),
            ) + "%)"@
            &&& m.with_scroll_clamped(count, height) == m
        }),
{
}

/// With more lines than rows and the end kept in view, or scrolled beyond it, the rows show the
/// last lines, and the position is that of the first of them.
pub proof fn lemma_scrolled_to_the_end(m: AppModel, all: Seq<Seq<char>>, height: u16)
    requires
        height >= 2,
        height - 2 < all.len() <= usize::MAX,
        m.auto_scroll || m.output_scroll > all.len() - (height - 2),
    ensures
        ({
            let count = all.len();
            let rows = height - 2;
            let at = scroll_position(m, count, height);
            let shown = visible(all, at, height);
            let after = m.with_scroll_clamped(count, height);
            &&& at == count - rows
            &&& shown.len() == rows
            &&& forall|i: int| 0 <= i < rows ==> #[trigger] shown[i] == all[count - rows + i]
            &&& panel_title(at, max_scroll(count, height)) == "Output ("@ + decimal(100) + "%)"@
            &&& after.output_scroll == count - rows
            &&& after == (AppModel { output_scroll: after.output_scroll, ..m })
        }),
{
    let n = all.len() - (height - 2);
    assert(n * 100 / n == 100) by (nonlinear_arith)
        requires
            n > 0,
    ;
}

/// Lines that all fit are all shown, in order, and there is nothing to scroll.
pub proof fn lemma_all_fits(m: AppModel, all: Seq<Seq<char>>, height: u16)
    requires
        height >= 2,
        all.len() <= height - 2,
    ensures
        visible(all, scroll_position(m, all.len(), height), height) == all,
        scroll_position(m, all.len(), height) == 0,
        panel_title(0, max_scroll(all.len(), height)) == "Output"@,
        m.with_scroll_clamped(all.len(), height).output_scroll == 0,
        m.with_scroll_clamped(all.len(), height) == (AppModel { output_scroll: 0, ..m }),
{
}

/// A panel without a row inside its frame shows no line.
pub proof fn lemma_no_row(m: AppModel, all: Seq<Seq<char>>, height: u16)
    requires
        height <= 2,
    ensures
        visible(all, scroll_position(m, all.len(), height), height).len() == 0,
        m.auto_scroll ==> scroll_position(m, all.len(), height) == all.len(),
{
}

/// Every line is in view at some position that can be scrolled to, the first one at the top.
pub proof fn lemma_every_line_can_be_seen(
    m: AppModel,
    all: Seq<Seq<char>>,
    height: u16,
    k: int,
) -> (n: usize)
    requires
        height >= 3,
        0 <= k < all.len() <= usize::MAX,
        !m.auto_scroll,
    ensures
        n <= k < n + (height - 2),
        k == 0 ==> n == 0,
        ({
            let there = AppModel { output_scroll: n, ..m };
            let at = scroll_position(there, all.len(), height);
            &&& at == n
            &&& visible(all, at, height)[k - n] == all[k]
        }),
{
    let max = max_scroll(all.len(), height);
    if k < max {
        k as usize
    } else {
        max as usize
    }
}

/// The list of projects has one entry for each, in order, under its name and with a sign for its
/// status; the selected one is marked, and no other.
pub proof fn lemma_project_list(m: AppModel, now: Timestamp, i: int)
    requires
        0 <= i < m.projects.len(),
    ensures
        ({
            let entry = project_entries(m, now)[i];
            let status = m.projects[i].status;
            &&& project_entries(m, now).len() == m.projects.len()
            &&& entry.name == m.projects[i].config.name
            &&& entry.selected <==> i == m.selected_index
            &&& status is Running ==> entry.marker == "🟢"@ + " "@
            &&& status is Daemon ==> entry.marker == "🔵"@ + " "@
            &&& status is Stopped ==> entry.marker == "🔴"@ + " "@
            &&& status is Error ==> entry.marker == "🟡"@ + " "@
        }),
{
}

/// Of a process the list tells the id, the share of a processor, the memory in whole mebibytes and
/// the time that it is up, in the same words for a child and for a daemon but for the first.
pub proof fn lemma_process_details(m: AppModel, now: Timestamp, i: int, mebi: int)
    requires
        0 <= i < m.projects.len(),
    ensures
        ({
            let detail = project_entries(m, now)[i].detail;
            match m.projects[i].status {
                StatusModel::Running { pid, start_time, cpu_usage, memory_usage } => mebi * 1048576
                    <= memory_usage < (mebi + 1) * 1048576 ==> detail == "\n  "@ + ("PID:"@
                    + shown_pid(pid) + " "@ + cpu_usage + "% "@ + decimal(mebi) + "MB"@ + " "@
                    + uptime_text(start_time, now, "m"@, "s"@)),
                StatusModel::Daemon { pid, start_time, cpu_usage, memory_usage } => mebi * 1048576
                    <= memory_usage < (mebi + 1) * 1048576 ==> detail == "\n  "@ + ("DAEMON PID:"@
                    + shown_pid(pid) + " "@ + cpu_usage + "% "@ + decimal(mebi) + "MB"@ + " "@
                    + uptime_text(start_time, now, "m"@, "s"@)),
                StatusModel::Stopped => detail == "\n  "@ + (if m.projects[i].config.daemon_mode {
                    "Stopped"@ + " (daemon)"@
                } else {
                    "Stopped"@ + ""@
                }),
                StatusModel::Error(message) => detail == "\n  "@ + ("Error: "@ + shortened(
                    message,
                )),
            }
        }),
{
    match m.projects[i].status {
        StatusModel::Running { memory_usage, .. } => lemma_mebibytes(memory_usage, mebi),
        StatusModel::Daemon { memory_usage, .. } => lemma_mebibytes(memory_usage, mebi),
        _ => {},
    }
}

/// Memory is told in whole mebibytes, rounded down.
pub proof fn lemma_mebibytes(bytes: u64, mebi: int)
    ensures
        mebi * 1048576 <= bytes < (mebi + 1) * 1048576 <==> mebibytes(bytes) == mebi,
{
    let b = bytes as int;
    assert(b / 1024 / 1024 == b / 1048576) by (nonlinear_arith)
        requires
            b >= 0,
    ;
}

/// Of a process of the system the list tells the name, the id, the share of a processor and the
/// memory in whole mebibytes.
pub proof fn lemma_system_entry(p: SystemProcessModel, mebi: int)
    requires
        mebi * 1048576 <= p.memory < (mebi + 1) * 1048576,
    ensures
        system_entry(p).marker == "🔹 "@,
        system_entry(p).name == p.name,
        system_entry(p).detail == "\n  "@ + ("PID:"@ + decimal(p.pid as int) + " "@ + p.cpu_usage
            + "% "@ + decimal(mebi) + "MB"@),
        !system_entry(p).selected,
{
    lemma_mebibytes(p.memory, mebi);
}

/// An error that can be cut is shown in the list by its first twenty bytes, or whole where it has
/// no more.
pub proof fn lemma_cut_errors(message: Seq<char>)
    requires
        displayable(message),
    ensures
        encode_utf8(message).len() <= 20 ==> shortened(message) == message,
        encode_utf8(message).len() > 20 ==> encode_utf8(shortened(message)) == encode_utf8(
            message,
        ).take(20),
{
    broadcast use vstd::utf8::encode_utf8_valid_utf8;

    let bytes = encode_utf8(message);
    if bytes.len() > 20 {
        vstd::utf8::valid_utf8_split(bytes, 20);
        vstd::utf8::decode_utf8_encode_utf8(bytes.take(20));
    }
}

/// An error can be cut exactly where it has no more than twenty bytes or its first twenty do not
/// end inside a character, and a state can be shown where that holds of all its errors.
pub proof fn lemma_what_can_be_shown(message: Seq<char>, m: AppModel)
    ensures
        displayable(message) <==> encode_utf8(message).len() <= 20 || is_char_boundary(
            encode_utf8(message),
            20,
        ),
        (forall|i: int|
            0 <= i < m.projects.len() && (#[trigger] m.projects[i]).status is Error ==> displayable(
                m.projects[i].status->Error_0,
            )) ==> m.presentable(),
{
}

/// A line before a line feed is the first line.
proof fn lemma_line_before(line: Seq<char>, rest: Seq<char>)
    requires
        is_line(line),
    ensures
        lines(line + seq!['\n'] + rest) == seq![line] + lines(rest),
{
    lemma_reading_lines(line, rest);
}

/// Text in front of a line makes it a longer line.
proof fn lemma_longer_line(front: Seq<char>, line: Seq<char>)
    requires
        is_line(front),
        front.len() > 0,
        is_line(line),
    ensures
        is_line(front + line),
{
    let s = front + line;
    assert(!s.contains('\n')) by {
        if s.contains('\n') {
            let k = choose|k: int| 0 <= k < s.len() && s[k] == '\n';
            if k < front.len() {
                assert(front[k] == '\n');
            } else {
                assert(line[k - front.len()] == '\n');
            }
        }
    }
    assert(s.last() == if line.len() > 0 { line.last() } else { front.last() });
}

/// A number is a line.
proof fn lemma_number_is_line(n: int)
    ensures
        is_line(decimal(n)),
        decimal(n).len() > 0,
{
    lemma_writing_numbers(n);
    let s = decimal(n);
    if n < 0 {
        let t = s.skip(1);
        assert forall|i: int| 0 <= i < s.len() implies s[i] != '\n' && s[i] != '\r' by {
            if i > 0 {
                assert(t[i - 1] == s[i]);
            }
        }
    }
}

/// Six lines, of which the second and the fifth are blank, are read as such.
proof fn lemma_six_lines(l0: Seq<char>, l2: Seq<char>, l3: Seq<char>, l5: Seq<char>)
    requires
        is_line(l0),
        is_line(l2),
        is_line(l3),
        !l5.contains('\n'),
        l5.len() > 0,
    ensures
        lines(l0 + seq!['\n', '\n'] + l2 + seq!['\n'] + l3 + seq!['\n', '\n'] + l5) == seq![
            l0,
            ""@,
            l2,
            l3,
            ""@,
            l5,
        ],
{
    reveal_strlit("");
    let nl = seq!['\n'];
    let t4 = ""@ + nl + l5;
    let t3 = l3 + nl + t4;
    let t2 = l2 + nl + t3;
    let t1 = ""@ + nl + t2;
    let t0 = l0 + nl + t1;
    lemma_reading_lines(l5, ""@);
    lemma_line_before(""@, l5);
    lemma_line_before(l3, t4);
    lemma_line_before(l2, t3);
    lemma_line_before(""@, t2);
    lemma_line_before(l0, t1);
    assert(l0 + seq!['\n', '\n'] + l2 + nl + l3 + seq!['\n', '\n'] + l5 =~= t0);
    assert(seq![l0] + (seq![""@] + (seq![l2] + (seq![l3] + (seq![""@] + seq![l5])))) =~= seq![
        l0,
        ""@,
        l2,
        l3,
        ""@,
        l5,
    ]);
}

/// Seven lines, of which the second and the sixth are blank, are read as such.
proof fn lemma_seven_lines(
    l0: Seq<char>,
    l2: Seq<char>,
    l3: Seq<char>,
    l4: Seq<char>,
    l6: Seq<char>,
)
    requires
        is_line(l0),
        is_line(l2),
        is_line(l3),
        is_line(l4),
        !l6.contains('\n'),
        l6.len() > 0,
    ensures
        lines(
            l0 + seq!['\n', '\n'] + l2 + seq!['\n'] + l3 + seq!['\n'] + l4 + seq!['\n', '\n'] + l6,
        ) == seq![l0, ""@, l2, l3, l4, ""@, l6],
{
    reveal_strlit("");
    let nl = seq!['\n'];
    let t5 = ""@ + nl + l6;
    let t4 = l4 + nl + t5;
    let t3 = l3 + nl + t4;
    let t2 = l2 + nl + t3;
    let t1 = ""@ + nl + t2;
    let t0 = l0 + nl + t1;
    lemma_reading_lines(l6, ""@);
    lemma_line_before(""@, l6);
    lemma_line_before(l4, t5);
    lemma_line_before(l3, t4);
    lemma_line_before(l2, t3);
    lemma_line_before(""@, t2);
    lemma_line_before(l0, t1);
    assert(l0 + seq!['\n', '\n'] + l2 + nl + l3 + nl + l4 + seq!['\n', '\n'] + l6 =~= t0);
    assert(seq![l0] + (seq![""@] + (seq![l2] + (seq![l3] + (seq![l4] + (seq![""@] + seq![l6])))))
        =~= seq![l0, ""@, l2, l3, l4, ""@, l6]);
}

/// The pane of a stopped project, line by line.
pub proof fn lemma_pane_of_stopped(project: ProjectModel, output: Option<OutputModel>, now: Timestamp)
    requires
        project.status is Stopped,
        is_line(project.config.path),
        is_line(project.config.command),
    ensures
        project_lines(project, output, now) == seq![
            "🔴 Process is stopped"@,
            ""@,
            "Path: "@ + project.config.path,
            "Command: "@ + project.config.command,
            ""@,
            "Press SPACE to start this project"@,
        ],
{
    let c = project.config;
    let l0 = "🔴 Process is stopped"@;
    let l2 = "Path: "@ + c.path;
    let l3 = "Command: "@ + c.command;
    let l5 = "Press SPACE to start this project"@;
    let (nl, two) = (seq!['\n'], seq!['\n', '\n']);
    lemma_stopped_literals();
    lemma_longer_line("Path: "@, c.path);
    lemma_longer_line("Command: "@, c.command);
    lemma_six_lines(l0, l2, l3, l5);
    let top = "🔴 Process is stopped\n\nPath: "@ + c.path;
    assert(top =~= l0 + two + l2);
    let more = top + "\nCommand: "@ + c.command;
    assert(more =~= top + nl + l3);
    assert(header(project, now) =~= more + two + l5);
    assert(written(project.status, output).len() == 0) by {
        reveal_strlit("");
    }
}

/// The words of the pane of a stopped project.
proof fn lemma_stopped_literals()
    ensures
        "🔴 Process is stopped\n\nPath: "@ == "🔴 Process is stopped"@ + seq!['\n', '\n']
            + "Path: "@,
        "\nCommand: "@ == seq!['\n'] + "Command: "@,
        "\n\nPress SPACE to start this project"@ == seq!['\n', '\n']
            + "Press SPACE to start this project"@,
        is_line("🔴 Process is stopped"@),
        is_line("Path: "@) && "Path: "@.len() > 0,
        is_line("Command: "@) && "Command: "@.len() > 0,
        is_line("Press SPACE to start this project"@),
        "Press SPACE to start this project"@.len() > 0,
{
    reveal_strlit("🔴 Process is stopped\n\nPath: ");
    reveal_strlit("🔴 Process is stopped");
    reveal_strlit("Path: ");
    reveal_strlit("Command: ");
    reveal_strlit("\nCommand: ");
    reveal_strlit("\n\nPress SPACE to start this project");
    reveal_strlit("Press SPACE to start this project");
    assert("🔴 Process is stopped\n\nPath: "@ =~= "🔴 Process is stopped"@ + seq!['\n', '\n']
        + "Path: "@);
    assert("\nCommand: "@ =~= seq!['\n'] + "Command: "@);
    assert("\n\nPress SPACE to start this project"@ =~= seq!['\n', '\n']
        + "Press SPACE to start this project"@);
}

/// The pane of a project whose last attempt failed, line by line.
pub proof fn lemma_pane_of_failed(
    project: ProjectModel,
    message: Seq<char>,
    output: Option<OutputModel>,
    now: Timestamp,
)
    requires
        project.status == StatusModel::Error(message),
        is_line(message),
        is_line(project.config.path),
        is_line(project.config.command),
    ensures
        project_lines(project, output, now) == seq![
            "🟡 Error occurred"@,
            ""@,
            "Error: "@ + message,
            "Path: "@ + project.config.path,
            "Command: "@ + project.config.command,
            ""@,
            "Check your configuration and try again"@,
        ],
{
    let c = project.config;
    let l0 = "🟡 Error occurred"@;
    let l2 = "Error: "@ + message;
    let l3 = "Path: "@ + c.path;
    let l4 = "Command: "@ + c.command;
    let l6 = "Check your configuration and try again"@;
    let (nl, two) = (seq!['\n'], seq!['\n', '\n']);
    lemma_failed_literals();
    lemma_stopped_literals();
    lemma_longer_line("Error: "@, message);
    lemma_longer_line("Path: "@, c.path);
    lemma_longer_line("Command: "@, c.command);
    lemma_seven_lines(l0, l2, l3, l4, l6);
    let top = "🟡 Error occurred\n\nError: "@ + message;
    assert(top =~= l0 + two + l2);
    let middle = top + "\nPath: "@ + c.path;
    assert(middle =~= top + nl + l3);
    let more = middle + "\nCommand: "@ + c.command;
    assert(more =~= middle + nl + l4);
    assert(header(project, now) =~= more + two + l6);
    assert(written(project.status, output).len() == 0) by {
        reveal_strlit("");
    }
}

/// The words of the pane of a project whose last attempt failed.
proof fn lemma_failed_literals()
    ensures
        "🟡 Error occurred\n\nError: "@ == "🟡 Error occurred"@ + seq!['\n', '\n'] + "Error: "@,
        "\nPath: "@ == seq!['\n'] + "Path: "@,
        "\n\nCheck your configuration and try again"@ == seq!['\n', '\n']
            + "Check your configuration and try again"@,
        is_line("🟡 Error occurred"@),
        is_line("Error: "@) && "Error: "@.len() > 0,
        is_line("Check your configuration and try again"@),
        "Check your configuration and try again"@.len() > 0,
{
    reveal_strlit("🟡 Error occurred\n\nError: ");
    reveal_strlit("🟡 Error occurred");
    reveal_strlit("Error: ");
    reveal_strlit("Path: ");
    reveal_strlit("\nPath: ");
    reveal_strlit("\n\nCheck your configuration and try again");
    reveal_strlit("Check your configuration and try again");
    assert("🟡 Error occurred\n\nError: "@ =~= "🟡 Error occurred"@ + seq!['\n', '\n']
        + "Error: "@);
    assert("\nPath: "@ =~= seq!['\n'] + "Path: "@);
    assert("\n\nCheck your configuration and try again"@ =~= seq!['\n', '\n']
        + "Check your configuration and try again"@);
}

/// The line that tells the figures of a process.
pub open spec fn figures_line(
    pid: u32,
    cpu_usage: Seq<char>,
    mebi: int,
    start_time: Timestamp,
    now: Timestamp,
) -> Seq<char> {
    "PID: "@ + shown_pid(pid) + " | CPU: "@ + cpu_usage + "% | Memory: "@ + decimal(mebi)
        + " MB | Uptime: "@ + uptime_text(start_time, now, " minutes"@, " seconds"@)
}

proof fn lemma_figures_line(
    pid: u32,
    cpu_usage: Seq<char>,
    mebi: int,
    start_time: Timestamp,
    now: Timestamp,
)
    requires
        is_line(cpu_usage),
    ensures
        is_line(figures_line(pid, cpu_usage, mebi, start_time, now)),
{
    reveal_strlit("PID: ");
    reveal_strlit(" | CPU: ");
    reveal_strlit("% | Memory: ");
    reveal_strlit(" MB | Uptime: ");
    reveal_strlit(" minutes");
    reveal_strlit(" seconds");
    let id = if pid < 0x8000_0000 {
        pid as int
    } else {
        pid - 0x1_0000_0000
    };
    lemma_number_is_line(id);
    lemma_number_is_line(mebi);
    lemma_number_is_line(crate::clock::whole_minutes(start_time, now));
    lemma_number_is_line(crate::clock::whole_seconds(start_time, now));
    let up = uptime_text(start_time, now, " minutes"@, " seconds"@);
    lemma_longer_line(decimal(crate::clock::whole_minutes(start_time, now)), " minutes"@);
    lemma_longer_line(decimal(crate::clock::whole_seconds(start_time, now)), " seconds"@);
    let a = "PID: "@;
    let b = a + shown_pid(pid);
    let c = b + " | CPU: "@;
    let d = c + cpu_usage;
    let e = d + "% | Memory: "@;
    let f = e + decimal(mebi);
    let g = f + " MB | Uptime: "@;
    lemma_longer_line(a, shown_pid(pid));
    lemma_longer_line(b, " | CPU: "@);
    lemma_longer_line(c, cpu_usage);
    lemma_longer_line(d, "% | Memory: "@);
    lemma_longer_line(e, decimal(mebi));
    lemma_longer_line(f, " MB | Uptime: "@);
    lemma_longer_line(g, up);
}

/// The figures of a process stand on a line of their own, after a blank one.
proof fn lemma_figures_stand_alone(
    headline: Seq<char>,
    pid: u32,
    cpu_usage: Seq<char>,
    mebi: int,
    start_time: Timestamp,
    now: Timestamp,
)
    ensures
        headline + "\n\nPID: "@ + shown_pid(pid) + " | CPU: "@ + cpu_usage + "% | Memory: "@
            + decimal(mebi) + " MB | Uptime: "@ + uptime_text(
            start_time,
            now,
            " minutes"@,
            " seconds"@,
        ) == headline + seq!['\n', '\n'] + figures_line(pid, cpu_usage, mebi, start_time, now),
{
    reveal_strlit("\n\nPID: ");
    reveal_strlit("PID: ");
    assert("\n\nPID: "@ =~= seq!['\n', '\n'] + "PID: "@);
    let up = uptime_text(start_time, now, " minutes"@, " seconds"@);
    assert(headline + "\n\nPID: "@ + shown_pid(pid) + " | CPU: "@ + cpu_usage + "% | Memory: "@
        + decimal(mebi) + " MB | Uptime: "@ + up =~= headline + seq!['\n', '\n'] + (("PID: "@
        + shown_pid(pid) + " | CPU: "@ + cpu_usage + "% | Memory: "@ + decimal(mebi)
        + " MB | Uptime: "@) + up));
}

/// The description of a process, line by line.
proof fn lemma_process_header(
    headline: Seq<char>,
    config: ConfigModel,
    pid: u32,
    start_time: Timestamp,
    cpu_usage: Seq<char>,
    memory_usage: u64,
    now: Timestamp,
    mebi: int,
)
    requires
        is_line(headline),
        is_line(config.path),
        is_line(config.command),
        is_line(cpu_usage),
        mebi * 1048576 <= memory_usage < (mebi + 1) * 1048576,
    ensures
        lines(process_header(headline, config, pid, start_time, cpu_usage, memory_usage, now))
            == seq![
            headline,
            ""@,
            figures_line(pid, cpu_usage, mebi, start_time, now),
            "Path: "@ + config.path,
            "Command: "@ + config.command,
            ""@,
            Seq::new(50, |i: int| '─'),
        ],
{
    lemma_mebibytes(memory_usage, mebi);
    lemma_figures_line(pid, cpu_usage, mebi, start_time, now);
    lemma_figures_stand_alone(headline, pid, cpu_usage, mebi, start_time, now);
    reveal_strlit("Path: ");
    reveal_strlit("\nPath: ");
    reveal_strlit("Command: ");
    reveal_strlit("\nCommand: ");
    reveal_strlit("\n\n");
    let nl = seq!['\n'];
    let l2 = figures_line(pid, cpu_usage, mebi, start_time, now);
    let l3 = "Path: "@ + config.path;
    let l4 = "Command: "@ + config.command;
    let l6 = Seq::new(50, |i: int| '─');
    assert(rule() =~= l6);
    assert(!l6.contains('\n'));
    lemma_longer_line("Path: "@, config.path);
    lemma_longer_line("Command: "@, config.command);
    lemma_seven_lines(headline, l2, l3, l4, l6);
    assert("\nPath: "@ =~= nl + "Path: "@);
    assert("\nCommand: "@ =~= nl + "Command: "@);
    assert("\n\n"@ =~= seq!['\n', '\n']);
    let top = headline + seq!['\n', '\n'] + l2;
    let a = top + "\nPath: "@ + config.path;
    assert(a =~= top + nl + l3);
    let b = a + "\nCommand: "@ + config.command;
    assert(b =~= a + nl + l4);
    assert(process_header(headline, config, pid, start_time, cpu_usage, memory_usage, now) == b
        + "\n\n"@ + rule());
}

/// The pane of a running project, line by line: its figures, its path and its command, a rule, and
/// what it has written, or a word where that cannot be read.
pub proof fn lemma_pane_of_running(
    project: ProjectModel,
    pid: u32,
    start_time: Timestamp,
    cpu_usage: Seq<char>,
    memory_usage: u64,
    output: Option<OutputModel>,
    now: Timestamp,
    mebi: int,
)
    requires
        project.status == (StatusModel::Running { pid, start_time, cpu_usage, memory_usage }),
        is_line(project.config.path),
        is_line(project.config.command),
        is_line(cpu_usage),
        mebi * 1048576 <= memory_usage < (mebi + 1) * 1048576,
        output matches Some(record) ==> {
            &&& forall|i: int| 0 <= i < record.stdout.len() ==> is_line(#[trigger] record.stdout[i])
            &&& forall|i: int| 0 <= i < record.stderr.len() ==> is_line(#[trigger] record.stderr[i])
        },
    ensures
        project_lines(project, output, now) == seq![
            "🟢 Process is running"@,
            ""@,
            figures_line(pid, cpu_usage, mebi, start_time, now),
            "Path: "@ + project.config.path,
            "Command: "@ + project.config.command,
            ""@,
            Seq::new(50, |i: int| '─'),
            ""@,
        ] + match output {
            Some(record) => if record.stdout.len() == 0 && record.stderr.len() == 0 {
                seq!["No output yet..."@]
            } else {
                shown_lines(record)
            },
            None => seq!["Error reading output"@],
        },
{
    reveal_strlit("🟢 Process is running");
    reveal_strlit("No output yet...");
    reveal_strlit("Error reading output");
    let head = seq![
        "🟢 Process is running"@,
        ""@,
        figures_line(pid, cpu_usage, mebi, start_time, now),
        "Path: "@ + project.config.path,
        "Command: "@ + project.config.command,
        ""@,
        Seq::new(50, |i: int| '─'),
    ];
    lemma_process_header(
        "🟢 Process is running"@,
        project.config,
        pid,
        start_time,
        cpu_usage,
        memory_usage,
        now,
        mebi,
    );
    lemma_reading_lines("No output yet..."@, Seq::empty());
    lemma_reading_lines("Error reading output"@, Seq::empty());
    let text = written(project.status, output);
    if let Some(record) = output {
        lemma_what_is_shown(record);
        if record.stdout.len() > 0 || record.stderr.len() > 0 {
            assert(shown_lines(record).len() > 0);
            assert(lines(text).len() > 0);
            if text.len() == 0 {
                assert(lines(text).len() == 0);
            }
        }
    }
    assert(text.len() > 0);
    assert(head + seq![""@] =~= seq![
        head[0],
        head[1],
        head[2],
        head[3],
        head[4],
        head[5],
        head[6],
        ""@,
    ]);
}

/// The pane of a daemon, line by line: its figures, its path and its command, a rule, and a notice
/// that its output is not recorded, whatever record there is.
pub proof fn lemma_pane_of_daemon(
    project: ProjectModel,
    pid: u32,
    start_time: Timestamp,
    cpu_usage: Seq<char>,
    memory_usage: u64,
    output: Option<OutputModel>,
    now: Timestamp,
    mebi: int,
)
    requires
        project.status == (StatusModel::Daemon { pid, start_time, cpu_usage, memory_usage }),
        is_line(project.config.path),
        is_line(project.config.command),
        is_line(cpu_usage),
        mebi * 1048576 <= memory_usage < (mebi + 1) * 1048576,
    ensures
        project_lines(project, output, now) == seq![
            "🔵 Process is running as DAEMON"@,
            ""@,
            figures_line(pid, cpu_usage, mebi, start_time, now),
            "Path: "@ + project.config.path,
            "Command: "@ + project.config.command,
            ""@,
            Seq::new(50, |i: int| '─'),
            ""@,
            "Daemon processes run in the background without output capture."@,
            "They will continue running even if you close the dashboard."@,
            "Use 'ps aux | grep <command>' to see their output in the terminal."@,
        ],
{
    reveal_strlit("🔵 Process is running as DAEMON");
    reveal_strlit("Daemon processes run in the background without output capture.");
    reveal_strlit("They will continue running even if you close the dashboard.");
    reveal_strlit("Use 'ps aux | grep <command>' to see their output in the terminal.");
    reveal_strlit(
        "Daemon processes run in the background without output capture.\nThey will continue running even if you close the dashboard.\nUse 'ps aux | grep <command>' to see their output in the terminal.",
    );
    lemma_process_header(
        "🔵 Process is running as DAEMON"@,
        project.config,
        pid,
        start_time,
        cpu_usage,
        memory_usage,
        now,
        mebi,
    );
    let nl = seq!['\n'];
    let a = "Daemon processes run in the background without output capture."@;
    let b = "They will continue running even if you close the dashboard."@;
    let c = "Use 'ps aux | grep <command>' to see their output in the terminal."@;
    lemma_reading_lines(c, Seq::empty());
    lemma_line_before(b, c);
    lemma_line_before(a, b + nl + c);
    let text = written(project.status, output);
    assert(text =~= a + nl + (b + nl + c));
    let head = lines(header(project, now));
    assert(head + seq![""@] + lines(text) =~= seq![
        head[0],
        head[1],
        head[2],
        head[3],
        head[4],
        head[5],
        head[6],
        ""@,
        a,
        b,
        c,
    ]);
}

/// The pane tells of the selected project, under its name and its command, or that there is none.
pub proof fn lemma_pane_is_of_selected(m: AppModel, output: Option<OutputModel>, now: Timestamp)
    ensures
        m.selected_index < m.projects.len() ==> output_lines(m, output, now) == project_lines(
            m.projects[m.selected_index as int],
            output,
            now,
        ),
        m.selected_index < m.projects.len() ==> output_heading(m) == "📋 "@
            + m.projects[m.selected_index as int].config.name + " - "@
            + m.projects[m.selected_index as int].config.command,
        m.selected_index >= m.projects.len() ==> output_lines(m, output, now) == seq![
            "No project selected"@,
        ] && output_heading(m) == "📋 Output"@,
        output_keys(true)
            == "Q Quit | Shift+↑↓ Scroll | PgUp/PgDn | End Bottom | A Toggle Auto ("@ + "AUTO"@
            + ")"@,
        output_keys(false)
            == "Q Quit | Shift+↑↓ Scroll | PgUp/PgDn | End Bottom | A Toggle Auto ("@ + "MANUAL"@
            + ")"@,
{
}

/// What a composed screen holds: an entry for each project, an entry for each listed process of
/// the system where they are shown, the heading and the keys, and of the pane the lines from the
/// position on that the output panel has rows for.
pub proof fn lemma_screen(
    screen: Screen,
    m: AppModel,
    area: Area,
    now: Timestamp,
    output: Option<OutputModel>,
    processes: Seq<SystemProcessModel>,
)
    requires
        composed(screen, m, area, now, output, processes),
    ensures
        screen.time == now,
        screen.projects@.len() == m.projects.len(),
        forall|i: int|
            0 <= i < m.projects.len() ==> (#[trigger] screen.projects@[i])@ == project_entries(
                m,
                now,
            )[i],
        !m.show_system_processes ==> screen.system@.len() == 0,
        m.show_system_processes ==> entry_models(screen.system@) == system_entries(
            first(ranked(targeted(processes)), MAX_LISTED as int),
        ),
        m.show_system_processes ==> screen.system@.len() <= 10,
        screen.output_heading@ == output_heading(m),
        screen.output_keys@ == output_keys(m.auto_scroll),
        ({
            let all = output_lines(m, output, now);
            let height = screen.panels.output.height;
            let at = scroll_position(m, all.len(), height);
            &&& screen.output.text@ == join(visible(all, at, height))
            &&& screen.output.title@ == panel_title(at, max_scroll(all.len(), height))
        }),
{
    lemma_listed_processes(processes);
    assert(entry_models(screen.projects@) == project_entries(m, now));
    assert(entry_models(screen.projects@).len() == screen.projects@.len());
    assert(entry_models(screen.system@).len() == screen.system@.len());
    assert forall|i: int| 0 <= i < m.projects.len() implies (#[trigger] screen.projects@[i])@
        == project_entries(m, now)[i] by {
        assert(entry_models(screen.projects@)[i] == screen.projects@[i]@);
    }
}

/// The list of the processes of the system has one entry for each that is listed, in order.
pub proof fn lemma_system_list(s: Seq<SystemProcessModel>, i: int)
    requires
        0 <= i < s.len(),
    ensures
        system_entries(s).len() == s.len(),
        system_entries(s)[i] == system_entry(s[i]),
{
}

} // verus!
