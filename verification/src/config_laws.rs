//! What a line of the configuration file declares, told by how it is written.

use vstd::prelude::*;

use crate::config::{config_line, config_lines, config_text, default_lines, header_lines, is_quote};
use crate::config::{lemma_files_are_read_one_by_one, lemma_line_round_trip, lemma_single_line};
use crate::config::{parsed, parsed_line, savable, unquoted};
use crate::project::ConfigModel;
use crate::text::{CharClass, find, is_line, is_white, lemma_find, lemma_find_after};
use crate::text::{lemma_lines_of_unlines, lines, split, trim};
use crate::text_laws::{all_white, lemma_splitting, lemma_trimming_quotes};
use crate::text_laws::{lemma_reading_lines, lemma_trimming_white, lemma_white_ends};

verus! {

/// Blank lines, lines that start with `#` after white space, and lines without `=` declare
/// nothing; every other line declares a project.
pub proof fn lemma_lines_that_declare(blank: Seq<char>, gap: Seq<char>, rest: Seq<char>, line: Seq<char>)
    requires
        all_white(blank),
        all_white(gap),
    ensures
        parsed_line(blank) is None,
        parsed_line(gap + seq!['#'] + rest) is None,
        !line.contains('=') ==> parsed_line(line) is None,
        line.contains('=') ==> (parsed_line(line) is None <==> exists|a: Seq<char>, b: Seq<char>|
            all_white(a) && line == #[trigger] (a + seq!['#'] + b)),
{
    let none = Seq::<char>::empty();
    assert(blank + none + none =~= blank);
    lemma_trimming_white(blank, none, none);
    lemma_comment_line(gap, rest);
    let (a, b) = lemma_white_ends(line);
    let t = trim(line, CharClass::White);
    lemma_find(t, '=');
    if !line.contains('=') {
        if find(t, '=') < t.len() {
            assert(line[a.len() + find(t, '=')] == '=');
        }
    } else {
        let k = choose|k: int| 0 <= k < line.len() && line[k] == '=';
        assert(a.len() <= k < a.len() + t.len()) by {
            if k < a.len() {
                assert(is_white(a[k]));
            } else if k >= a.len() + t.len() {
                assert(is_white(b[k - a.len() - t.len()]));
            }
        }
        assert(t[k - a.len()] == '=');
        if parsed_line(line) is None {
            assert(t[0] == '#');
            assert(line =~= a + seq!['#'] + (t.skip(1) + b));
        }
        if exists|x: Seq<char>, y: Seq<char>|
            all_white(x) && line == #[trigger] (x + seq!['#'] + y) {
            let (x, y) = choose|x: Seq<char>, y: Seq<char>|
                all_white(x) && line == #[trigger] (x + seq!['#'] + y);
            lemma_comment_line(x, y);
        }
    }
}

proof fn lemma_comment_line(gap: Seq<char>, rest: Seq<char>)
    requires
        all_white(gap),
    ensures
        parsed_line(gap + seq!['#'] + rest) is None,
{
    let none = Seq::<char>::empty();
    let line = gap + seq!['#'] + rest;
    let (a, b) = lemma_white_ends(rest);
    let r = trim(rest, CharClass::White);
    let core = if r.len() > 0 {
        seq!['#'] + a + r
    } else {
        seq!['#']
    };
    let after = if r.len() > 0 {
        b
    } else {
        a + b
    };
    assert(core[0] == '#');
    assert(core.last() == if r.len() > 0 { r.last() } else { '#' });
    assert(line =~= gap + core + after);
    lemma_trimming_white(gap, core, after);
}

/// The part before the first `=` of a line is the name, and the part after it is the value; white
/// space around them does not count.
proof fn lemma_name_and_value(front: Seq<char>, value: Seq<char>)
    requires
        !front.contains('='),
        trim(front, CharClass::White).len() > 0 ==> trim(front, CharClass::White)[0] != '#',
    ensures
        ({
            let line = trim(front + seq!['='] + value, CharClass::White);
            let at = find(line, '=');
            &&& line.len() > 0 && line[0] != '#' && at < line.len()
            &&& trim(line.take(at), CharClass::White) == trim(front, CharClass::White)
            &&& unquoted(line.skip(at + 1)) == unquoted(value)
        }),
{
    let none = Seq::<char>::empty();
    let class = CharClass::White;
    let eq = seq!['='];
    let (a, b) = lemma_white_ends(front);
    let (c, d) = lemma_white_ends(value);
    let n = trim(front, class);
    let v = trim(value, class);
    let f = if n.len() > 0 {
        n + b
    } else {
        none
    };
    let w = if v.len() > 0 {
        c + v
    } else {
        none
    };
    let before = if n.len() > 0 {
        a
    } else {
        a + b
    };
    let after = if v.len() > 0 {
        d
    } else {
        c + d
    };
    let core = f + eq + w;
    assert(front =~= before + f);
    assert(value =~= w + after);
    assert(front + eq + value =~= before + core + after);
    assert(core[0] == if n.len() > 0 { n[0] } else { '=' });
    assert(core.last() == if v.len() > 0 { v.last() } else { '=' });
    lemma_trimming_white(before, core, after);
    assert(!f.contains('=')) by {
        if f.contains('=') {
            let k = choose|k: int| 0 <= k < f.len() && f[k] == '=';
            assert(front[before.len() + k] == '=');
        }
    }
    lemma_find_after(f, '=', w);
    assert(core.take(f.len() as int) =~= f);
    assert(core.skip(f.len() + 1int) =~= w);
    if n.len() > 0 {
        assert(f =~= none + n + b);
        lemma_trimming_white(none, n, b);
    } else {
        assert(f =~= none + none + none);
        lemma_trimming_white(none, none, none);
    }
    if v.len() > 0 {
        assert(w =~= c + v + none);
        lemma_trimming_white(c, v, none);
    } else {
        assert(w =~= none + none + none);
        lemma_trimming_white(none, none, none);
    }
}

/// As many of a character as given.
pub open spec fn run(c: char, n: nat) -> Seq<char> {
    Seq::new(n, |i: int| c)
}

/// Quotes around a value do not count, single ones outside of double ones, as many as there are,
/// nor does white space around them.
pub proof fn lemma_quotes_do_not_count(
    gap: Seq<char>,
    singles: nat,
    doubles: nat,
    inner: Seq<char>,
    more_doubles: nat,
    more_singles: nat,
    end: Seq<char>,
)
    requires
        all_white(gap),
        all_white(end),
        inner.len() > 0,
        !is_quote(inner[0]) && !is_quote(inner.last()),
        singles + doubles == 0 ==> !is_white(inner[0]),
        more_singles + more_doubles == 0 ==> !is_white(inner.last()),
    ensures
        unquoted(
            gap + (run('\'', singles) + (run('"', doubles) + inner + run('"', more_doubles)) + run(
                '\'',
                more_singles,
            )) + end,
        ) == inner,
{
    let y = run('"', doubles) + inner + run('"', more_doubles);
    let x = run('\'', singles) + y + run('\'', more_singles);
    assert(y[0] == if doubles > 0 { '"' } else { inner[0] });
    assert(y.last() == if more_doubles > 0 { '"' } else { inner.last() });
    assert(x[0] == if singles > 0 { '\'' } else { y[0] });
    assert(x.last() == if more_singles > 0 { '\'' } else { y.last() });
    lemma_trimming_white(gap, x, end);
    lemma_trimming_quotes('\'', singles, y, more_singles);
    lemma_trimming_quotes('"', doubles, inner, more_doubles);
}

/// A line declares the project whose name stands before its first `=`, whose path, command and
/// daemon mode are the parts of its value between commas, all without white space around them.
/// Without a command it is `ls`; the daemon mode is on for the word `true` alone; further parts do
/// not count.
pub proof fn lemma_declaration(
    front: Seq<char>,
    value: Seq<char>,
    path: Seq<char>,
    command: Seq<char>,
    mode: Seq<char>,
    more: Seq<char>,
)
    requires
        !front.contains('='),
        trim(front, CharClass::White).len() > 0 ==> trim(front, CharClass::White)[0] != '#',
        !path.contains(','),
        !command.contains(','),
        !mode.contains(','),
    ensures
        ({
            let comma = seq![','];
            let line = front + seq!['='] + value;
            let name = trim(front, CharClass::White);
            let p = trim(path, CharClass::White);
            let c = trim(command, CharClass::White);
            let on = trim(mode, CharClass::White) == "true"@;
            &&& unquoted(value) == path ==> parsed_line(line) == Some(
                ConfigModel { name, path: p, command: "ls"@, daemon_mode: false },
            )
            &&& unquoted(value) == path + comma + command ==> parsed_line(line) == Some(
                ConfigModel { name, path: p, command: c, daemon_mode: false },
            )
            &&& unquoted(value) == path + comma + (command + comma + mode) ==> parsed_line(line)
                == Some(ConfigModel { name, path: p, command: c, daemon_mode: on })
            &&& unquoted(value) == path + comma + (command + comma + (mode + comma + more))
                ==> parsed_line(line) == Some(
                ConfigModel { name, path: p, command: c, daemon_mode: on },
            )
        }),
{
    let comma = seq![','];
    lemma_name_and_value(front, value);
    lemma_splitting(path, ',', command);
    lemma_splitting(command, ',', mode);
    lemma_splitting(mode, ',', more);
    lemma_splitting(path, ',', command + comma + mode);
    lemma_splitting(command, ',', mode + comma + more);
    lemma_splitting(path, ',', command + comma + (mode + comma + more));
    let rest = split(more, ',');
    assert(seq![path] + seq![command] =~= seq![path, command]);
    assert(seq![path] + (seq![command] + seq![mode]) =~= seq![path, command, mode]);
    let many = seq![path] + (seq![command] + (seq![mode] + rest));
    assert(many[0] == path && many[1] == command && many[2] == mode && many.len() >= 3);
}

/// A file of one line declares what the line declares, and one of several lines what they declare
/// one after the other.
pub proof fn lemma_file_of_lines(line: Seq<char>, rest: Seq<char>)
    requires
        !line.contains('\n'),
    ensures
        parsed(line) == match parsed_line(line) {
            Some(config) => seq![config],
            None => Seq::empty(),
        },
        parsed(line + seq!['\n'] + rest) == match parsed_line(line) {
            Some(config) => seq![config] + parsed(rest),
            None => parsed(rest),
        },
{
    lemma_reading_lines(line, rest);
    lemma_single_line(line);
    lemma_files_are_read_one_by_one(line, rest);
    if line.len() == 0 {
        lemma_lines_that_declare(line, line, line, line);
        assert(lines(line) =~= Seq::empty());
        assert(parsed(line) =~= Seq::empty());
    }
    if parsed_line(line) is None {
        assert(parsed(line) + parsed(rest) =~= parsed(rest));
    }
}

/// The file that is written has four lines of comment and a blank one, and then a line for each
/// project, in order: its name, and in single quotes its path, its command and its daemon mode.
pub proof fn lemma_written_file(cs: Seq<ConfigModel>, i: int)
    requires
        forall|k: int| 0 <= k < cs.len() ==> savable(#[trigger] cs[k]),
        0 <= i < cs.len(),
    ensures
        ({
            let ls = lines(config_text(cs));
            &&& ls.len() == 5 + cs.len()
            &&& ls[0] == "# Dev Dashboard Project Configuration"@
            &&& ls[1] == "# Format: project_name='path/to/project,command,daemon_mode'"@
            &&& ls[2]
                == "# If no command is specified, it defaults to 'ls' (just shows directory contents)"@
            &&& ls[3] == "# If no daemon_mode is specified, it defaults to 'false'"@
            &&& ls[4] == ""@
            &&& ls[5 + i] == cs[i].name + "='"@ + cs[i].path + ","@ + cs[i].command + ","@ + (
            if cs[i].daemon_mode {
                "true"@
            } else {
                "false"@
            }) + "'"@
        }),
{
    reveal_strlit("# Dev Dashboard Project Configuration");
    reveal_strlit("# Format: project_name='path/to/project,command,daemon_mode'");
    reveal_strlit("# If no command is specified, it defaults to 'ls' (just shows directory contents)");
    reveal_strlit("# If no daemon_mode is specified, it defaults to 'false'");
    reveal_strlit("");
    let ls = header_lines() + config_lines(cs);
    assert forall|k: int| 0 <= k < ls.len() implies is_line(#[trigger] ls[k]) by {
        if k < 5 {
            assert(ls[k] == header_lines()[k]);
        } else {
            assert(ls[k] == config_line(cs[k - 5]));
            lemma_line_round_trip(cs[k - 5]);
        }
    }
    lemma_lines_of_unlines(ls);
    assert(ls[5 + i] == config_line(cs[i]));
}

/// The file that is offered where there is none: how a project is declared, commands to use, and
/// examples, all in comments.
pub proof fn lemma_default_file()
    ensures
        default_lines().len() == 24,
        default_lines()[0] == "# Dev Dashboard Project Configuration"@,
        default_lines()[1] == "# Format: project_name='path/to/project,command,daemon_mode'"@,
        default_lines()[2]
            == "# If no command is specified, it defaults to 'ls' (just shows directory contents)"@,
        default_lines()[3] == "# If no daemon_mode is specified, it defaults to 'false'"@,
        default_lines()[4] == ""@,
        default_lines()[5] == "# Common development commands:"@,
        default_lines()[6] == "# dotnet run          - Run .NET application"@,
        default_lines()[7] == "# npm start           - Start Node.js development server"@,
        default_lines()[8] == "# npm run dev         - Start development server"@,
        default_lines()[9] == "# yarn dev            - Start development server with Yarn"@,
        default_lines()[10] == "# python -m uvicorn   - Start Python FastAPI server"@,
        default_lines()[11] == "# cargo run           - Run Rust application"@,
        default_lines()[12] == "# docker-compose up   - Start Docker services"@,
        default_lines()[13] == "# go run main.go      - Run Go application"@,
        default_lines()[14] == ""@,
        default_lines()[15] == "# Example projects (uncomment and modify as needed):"@,
        default_lines()[16]
            == "# kumiko-web='/Users/jonathangulliksen/code/kumiko-web,npm start,false'"@,
        default_lines()[17]
            == "# backend-api='/Users/jonathangulliksen/code/backend,dotnet run,true'"@,
        default_lines()[18]
            == "# frontend-react='/Users/jonathangulliksen/code/frontend,npm run dev,false'"@,
        default_lines()[19] == "# database='/Users/jonathangulliksen/code/db,docker-compose up,true'"@,
        default_lines()[20]
            == "# rust-service='/Users/jonathangulliksen/code/rust-service,cargo run,false'"@,
        default_lines()[21]
            == "# python-api='/Users/jonathangulliksen/code/python-api,python -m uvicorn main:app --reload,true'"@,
        default_lines()[22] == ""@,
        default_lines()[23] == "# Add your projects below:"@,
{
}

} // verus!
