//! The configuration file: one project a line, in the form `name='path,command,daemon_mode'`.

use vstd::prelude::*;
use vstd::slice::slice_subrange;

use crate::project::{ConfigModel, Project, ProjectConfig, ProjectModel, ProjectStatus, StatusModel};
use crate::project::{configs, project_models, stopped};
use crate::text::{
    CharClass, append_lines, chars_of, find_char, split_chars, split_lines, string_of, trim_chars,
};
use crate::text::{find, is_line, lines, slices, split, texts, trim, unlines};
use crate::text::{lemma_find, lemma_find_after, lemma_lines_have_no_feed, lemma_lines_of_unlines};
use crate::text::{lemma_split_after, lemma_split_pieces, lemma_trim, lemma_trim_adds_nothing};
use crate::text::{lemma_trim_fixed, lemma_trim_is_no_longer, lemma_trim_keeps_first};
use crate::text::{lemma_trim_push, lemma_trim_quoted, lemma_trim_start, trim_end, trim_start};
use crate::text::without_return;

verus! {

/// The value of an entry without the quotes around it: first single ones, then double ones.
pub open spec fn unquoted(s: Seq<char>) -> Seq<char> {
    trim(trim(trim(s, CharClass::White), CharClass::Only('\'')), CharClass::Only('"'))
}

/// The project that a line declares, if it declares one: a line that is blank, starts with `#`
/// or has no `=` declares none. A missing command is `ls`, and anything but `true` for the
/// daemon mode is false.
pub open spec fn parsed_line(line: Seq<char>) -> Option<ConfigModel> {
    let line = trim(line, CharClass::White);
    let equals = find(line, '=');
    if line.len() == 0 || line[0] == '#' || equals == line.len() {
        None
    } else {
        let parts = split(unquoted(line.skip(equals + 1)), ',');
        Some(
            ConfigModel {
                name: trim(line.take(equals), CharClass::White),
                path: trim(parts[0], CharClass::White),
                command: if parts.len() > 1 {
                    trim(parts[1], CharClass::White)
                } else {
                    "ls"@
                },
                daemon_mode: parts.len() > 2 && trim(parts[2], CharClass::White) == "true"@,
            },
        )
    }
}

/// The projects that a run of lines declares, in order.
pub open spec fn parsed_lines(ls: Seq<Seq<char>>) -> Seq<ConfigModel>
    decreases ls.len(),
{
    if ls.len() == 0 {
        Seq::empty()
    } else {
        let before = parsed_lines(ls.drop_last());
        match parsed_line(ls.last()) {
            Some(config) => before.push(config),
            None => before,
        }
    }
}

/// The projects that a configuration file declares, in order.
pub open spec fn parsed(content: Seq<char>) -> Seq<ConfigModel> {
    parsed_lines(lines(content))
}

/// Whether the string has the given characters.
fn same_text(s: &[char], t: &str) -> (r: bool)
    ensures
        r == (s@ == t@),
{
    string_of(s) == t.to_string()
}

/// Reads one line of the configuration file.
pub fn parse_line(line: &[char]) -> (r: Option<ProjectConfig>)
    ensures
        match r {
            Some(config) => parsed_line(line@) == Some(config@),
            None => parsed_line(line@) is None,
        },
{
    let line = trim_chars(line, CharClass::White);
    if line.len() == 0 || line[0] == '#' {
        return None;
    }
    let equals = find_char(line, '=');
    if equals == line.len() {
        return None;
    }
    let left = slice_subrange(line, 0, equals);
    let right = slice_subrange(line, equals + 1, line.len());
    assert(left@ =~= line@.take(equals as int));
    assert(right@ =~= line@.skip(equals + 1));
    let name = trim_chars(left, CharClass::White);
    let value = trim_chars(
        trim_chars(trim_chars(right, CharClass::White), CharClass::Only('\'')),
        CharClass::Only('"'),
    );
    let parts = split_chars(value, ',');
    proof {
        assert(slices(parts@)[0] == parts@[0]@);
        if parts@.len() > 1 {
            assert(slices(parts@)[1] == parts@[1]@);
        }
        if parts@.len() > 2 {
            assert(slices(parts@)[2] == parts@[2]@);
        }
    }
    let path = string_of(trim_chars(parts[0], CharClass::White));
    let command = if parts.len() > 1 {
        string_of(trim_chars(parts[1], CharClass::White))
    } else {
        "ls".to_string()
    };
    let daemon_mode = parts.len() > 2 && same_text(trim_chars(parts[2], CharClass::White), "true");
    Some(ProjectConfig { name: string_of(name), path, command, daemon_mode })
}

/// Reads the configuration file: every project that it declares, with no process.
pub fn load_projects(content: &str) -> (r: Vec<Project>)
    ensures
        project_models(r@) == stopped(parsed(content@)),
{
    let chars = chars_of(content);
    let all = split_lines(chars.as_slice());
    let mut projects: Vec<Project> = Vec::new();
    let mut i: usize = 0;
    assert(slices(all@).take(0) =~= Seq::empty());
    assert(project_models(projects@) =~= stopped(parsed_lines(slices(all@).take(0))));
    while i < all.len()
        invariant
            i <= all.len(),
            project_models(projects@) == stopped(parsed_lines(slices(all@).take(i as int))),
        decreases all.len() - i,
    {
        let ghost before = projects@;
        let ghost seen = slices(all@).take(i + 1);
        assert(seen.drop_last() =~= slices(all@).take(i as int));
        assert(seen.last() == all@[i as int]@);
        match parse_line(all[i]) {
            Some(config) => {
                projects.push(Project { config, status: ProjectStatus::Stopped });
                assert(project_models(projects@) =~= project_models(before).push(
                    ProjectModel { config: config@, status: StatusModel::Stopped },
                ));
                assert(stopped(parsed_lines(seen)) =~= stopped(parsed_lines(seen.drop_last())).push(
                    ProjectModel { config: config@, status: StatusModel::Stopped },
                ));
            },
            None => {},
        }
        i += 1;
    }
    assert(slices(all@).take(i as int) =~= slices(all@));
    projects
}

/// The comment at the top of a configuration file that the dashboard writes.
pub open spec fn header_lines() -> Seq<Seq<char>> {
    seq![
        "# Dev Dashboard Project Configuration"@,
        "# Format: project_name='path/to/project,command,daemon_mode'"@,
        "# If no command is specified, it defaults to 'ls' (just shows directory contents)"@,
        "# If no daemon_mode is specified, it defaults to 'false'"@,
        ""@,
    ]
}

/// The line that declares a project.
pub open spec fn config_line(c: ConfigModel) -> Seq<char> {
    c.name + "='"@ + c.path + ","@ + c.command + ","@ + (if c.daemon_mode {
        "true"@
    } else {
        "false"@
    }) + "'"@
}

/// The lines that declare a list of projects.
pub open spec fn config_lines(cs: Seq<ConfigModel>) -> Seq<Seq<char>> {
    Seq::new(cs.len(), |i: int| config_line(cs[i]))
}

/// The configuration file for a list of projects.
pub open spec fn config_text(cs: Seq<ConfigModel>) -> Seq<char> {
    unlines(header_lines() + config_lines(cs))
}

/// The line that declares a project.
fn format_line(config: &ProjectConfig) -> (r: String)
    ensures
        r@ == config_line(config@),
{
    let mut line = config.name.clone();
    line.append("='");
    line.append(config.path.as_str());
    line.append(",");
    line.append(config.command.as_str());
    line.append(",");
    line.append(if config.daemon_mode { "true" } else { "false" });
    line.append("'");
    line
}

/// Writes the configuration file for a list of projects.
pub fn save_projects_config(projects: &Vec<Project>) -> (r: String)
    ensures
        r@ == config_text(configs(project_models(projects@))),
{
    let ghost cs = configs(project_models(projects@));
    let mut ls: Vec<String> = Vec::new();
    ls.push("# Dev Dashboard Project Configuration".to_string());
    ls.push("# Format: project_name='path/to/project,command,daemon_mode'".to_string());
    ls.push(
        "# If no command is specified, it defaults to 'ls' (just shows directory contents)".to_string(),
    );
    ls.push("# If no daemon_mode is specified, it defaults to 'false'".to_string());
    ls.push("".to_string());
    assert(texts(ls@) =~= header_lines() + config_lines(cs).take(0));
    let mut i: usize = 0;
    while i < projects.len()
        invariant
            i <= projects.len(),
            cs == configs(project_models(projects@)),
            texts(ls@) == header_lines() + config_lines(cs).take(i as int),
        decreases projects.len() - i,
    {
        let ghost before = texts(ls@);
        let line = format_line(&projects[i].config);
        ls.push(line);
        assert(texts(ls@) =~= before.push(line@));
        assert(config_lines(cs).take(i + 1) =~= config_lines(cs).take(i as int).push(line@));
        i += 1;
    }
    assert(config_lines(cs).take(i as int) =~= config_lines(cs));
    let mut content = String::new();
    append_lines(&mut content, &ls);
    assert(content@ =~= config_text(cs));
    content
}

/// Whether the form of a configuration line can carry a project: nothing in it stands for the
/// end of its part.
pub open spec fn tidy(c: ConfigModel) -> bool {
    &&& tidy_name(c.name)
    &&& tidy_part(c.path)
    &&& tidy_part(c.command)
}

/// A name that ends before the first `=` and is not taken for a comment.
pub open spec fn tidy_name(s: Seq<char>) -> bool {
    &&& trim(s, CharClass::White) == s
    &&& !s.contains('\n')
    &&& !s.contains('=')
    &&& s.len() > 0 ==> s[0] != '#'
}

/// A path or a command that ends before the next comma.
pub open spec fn tidy_part(s: Seq<char>) -> bool {
    &&& trim(s, CharClass::White) == s
    &&& !s.contains('\n')
    &&& !s.contains(',')
}

/// Whether a project can be written to the configuration file and read back: it is tidy, and
/// its path does not start with a quote, which reading would take for the quote around the
/// value.
pub open spec fn savable(c: ConfigModel) -> bool {
    &&& tidy(c)
    &&& c.path.len() > 0 ==> !is_quote(c.path[0])
}

/// The quotes that may stand around a value.
pub open spec fn is_quote(c: char) -> bool {
    c == '\'' || c == '"'
}

/// What a line of the form `name='value'` declares: the name, and the parts of the value.
proof fn lemma_quoted_line(name: Seq<char>, inner: Seq<char>)
    requires
        tidy_name(name),
        inner.len() > 0 ==> !is_quote(inner[0]) && !is_quote(inner.last()),
    ensures
        ({
            let line = name + "='"@ + inner + "'"@;
            let equals = find(line, '=');
            &&& line.len() > 0 && line[0] != '#'
            &&& trim(line, CharClass::White) == line
            &&& equals == name.len() < line.len()
            &&& line.take(equals) == name
            &&& unquoted(line.skip(equals + 1)) == inner
        }),
{
    reveal_strlit("='");
    reveal_strlit("'");
    let value = seq!['\''] + inner + seq!['\''];
    let line = name + seq!['='] + value;
    assert(name + "='"@ + inner + "'"@ =~= line);
    lemma_trim_fixed(name, CharClass::White);
    assert(line.last() == '\'');
    assert(line[0] == if name.len() > 0 { name[0] } else { '=' });
    lemma_trim_fixed(line, CharClass::White);
    lemma_find_after(name, '=', value);
    assert(line.take(name.len() as int) =~= name);
    assert(line.skip(name.len() + 1int) =~= value);
    assert(value[0] == '\'' && value.last() == '\'');
    lemma_trim_fixed(value, CharClass::White);
    lemma_trim_quoted('\'', inner);
    lemma_trim_fixed(inner, CharClass::Only('"'));
}

/// A tidy project is declared on one line.
proof fn lemma_tidy_line(c: ConfigModel)
    requires
        tidy(c),
    ensures
        is_line(config_line(c)),
{
    let flag = if c.daemon_mode { "true"@ } else { "false"@ };
    reveal_strlit("true");
    reveal_strlit("false");
    reveal_strlit("='");
    reveal_strlit(",");
    reveal_strlit("'");
    let line = config_line(c);
    assert(line.last() == '\'');
    assert forall|d: int| 0 <= d < line.len() implies line[d] != '\n' by {
        let a = c.name.len();
        let b = a + 2 + c.path.len();
        let e = b + 1 + c.command.len();
        if d < a {
            assert(line[d] == c.name[d]);
        } else if a + 2 <= d < b {
            assert(line[d] == c.path[d - a - 2]);
        } else if b + 1 <= d < e {
            assert(line[d] == c.command[d - b - 1]);
        } else if e + 1 <= d < e + 1 + flag.len() {
            assert(line[d] == flag[d - e - 1]);
        }
    }
}

/// A line that declares a project is read back as that project.
pub proof fn lemma_line_round_trip(c: ConfigModel)
    requires
        savable(c),
    ensures
        parsed_line(config_line(c)) == Some(c),
        is_line(config_line(c)),
{
    let flag = if c.daemon_mode { "true"@ } else { "false"@ };
    reveal_strlit("true");
    reveal_strlit("false");
    reveal_strlit("='");
    reveal_strlit(",");
    reveal_strlit("'");
    let tail = c.command + seq![','] + flag;
    let inner = c.path + seq![','] + tail;
    let line = c.name + "='"@ + inner + "'"@;
    assert(config_line(c) =~= line);
    assert(inner[0] == if c.path.len() > 0 { c.path[0] } else { ',' });
    assert(inner.last() == 'e');
    lemma_quoted_line(c.name, inner);
    lemma_split_after(c.path, ',', tail);
    lemma_split_after(c.command, ',', flag);
    assert(!flag.contains(','));
    lemma_split_after(flag, ',', flag);
    assert(split(inner, ',') =~= seq![c.path, c.command, flag]);
    lemma_trim_fixed(flag, CharClass::White);
    assert(c.daemon_mode == (flag == "true"@)) by {
        if !c.daemon_mode {
            assert(flag.len() != "true"@.len());
        }
    }
    lemma_tidy_line(c);
}

/// Where no daemon mode is given it is false, and where no command is given either it is `ls`.
pub proof fn lemma_defaults(name: Seq<char>, path: Seq<char>, command: Seq<char>)
    requires
        tidy_name(name),
        tidy_part(path),
        tidy_part(command),
        path.len() > 0 ==> !is_quote(path[0]),
    ensures
        (path.len() > 0 ==> !is_quote(path.last())) ==> parsed_line(name + "='"@ + path + "'"@)
            == Some(ConfigModel { name, path, command: "ls"@, daemon_mode: false }),
        (command.len() > 0 ==> !is_quote(command.last())) ==> parsed_line(
            name + "='"@ + path + ","@ + command + "'"@,
        ) == Some(ConfigModel { name, path, command, daemon_mode: false }),
{
    reveal_strlit(",");
    reveal_strlit("'");
    lemma_trim_fixed(path, CharClass::White);
    lemma_trim_fixed(command, CharClass::White);
    lemma_split_after(path, ',', command);
    lemma_split_after(command, ',', command);
    if path.len() > 0 ==> !is_quote(path.last()) {
        lemma_quoted_line(name, path);
    }
    if command.len() > 0 ==> !is_quote(command.last()) {
        let inner = path + seq![','] + command;
        assert(inner[0] == if path.len() > 0 { path[0] } else { ',' });
        lemma_quoted_line(name, inner);
        assert(name + "='"@ + inner + "'"@ =~= name + "='"@ + path + ","@ + command + "'"@);
        assert(split(inner, ',') =~= seq![path, command]);
    }
}

/// Blank lines and comments declare nothing, and where they stand makes no difference: what a
/// configuration file declares is what the lines before a place and those after it declare.
pub proof fn lemma_lines_are_read_one_by_one(a: Seq<Seq<char>>, b: Seq<Seq<char>>)
    ensures
        parsed_lines(a + b) == parsed_lines(a) + parsed_lines(b),
        forall|line: Seq<char>|
            #![trigger parsed_line(line)]
            trim(line, CharClass::White).len() == 0 || trim(line, CharClass::White)[0] == '#'
                ==> parsed_line(line) is None,
    decreases b.len(),
{
    if b.len() == 0 {
        assert(a + b =~= a);
        assert(parsed_lines(a) + parsed_lines(b) =~= parsed_lines(a));
    } else {
        lemma_lines_are_read_one_by_one(a, b.drop_last());
        assert((a + b).drop_last() =~= a + b.drop_last());
        assert(parsed_lines(a + b) =~= parsed_lines(a) + parsed_lines(b));
    }
}

/// A carriage return before the end of a line makes no difference to what the line declares.
proof fn lemma_return_declares_nothing(line: Seq<char>)
    ensures
        parsed_line(without_return(line)) == parsed_line(line),
{
    if line.len() > 0 && line.last() == '\r' {
        lemma_trim_push(line.drop_last(), '\r', CharClass::White);
        assert(line.drop_last().push('\r') =~= line);
    }
}

/// What a single line declares.
pub proof fn lemma_single_line(line: Seq<char>)
    ensures
        parsed_lines(seq![line]) == match parsed_line(line) {
            Some(config) => seq![config],
            None => Seq::empty(),
        },
{
    assert(seq![line].drop_last() =~= Seq::empty());
    assert(parsed_lines(Seq::empty()) =~= Seq::empty());
    if let Some(config) = parsed_line(line) {
        assert(Seq::<ConfigModel>::empty().push(config) =~= seq![config]);
    }
}

/// Two configuration files, one put below the other, declare what the first and then the second
/// declares.
pub proof fn lemma_files_are_read_one_by_one(a: Seq<char>, b: Seq<char>)
    ensures
        parsed(a + seq!['\n'] + b) == parsed(a) + parsed(b),
    decreases a.len(),
{
    let s = a + seq!['\n'] + b;
    let i = find(a, '\n');
    lemma_find(a, '\n');
    lemma_find(s, '\n');
    if i == a.len() {
        assert(find(s, '\n') == i) by {
            assert(!a.contains('\n'));
            lemma_find_after(a, '\n', b);
        }
        assert(s.take(i) =~= a);
        assert(s.skip(i + 1) =~= b);
        let head = seq![without_return(a)];
        lemma_lines_are_read_one_by_one(head, lines(b));
        lemma_return_declares_nothing(a);
        lemma_single_line(without_return(a));
        lemma_single_line(a);
        if a.len() == 0 {
            lemma_trim_fixed(a, CharClass::White);
            assert(parsed_lines(head) =~= parsed_lines(lines(a)));
        }
    } else {
        assert(find(s, '\n') == i) by {
            let k = find(s, '\n');
            if k < i {
                assert(s[k] == a[k]);
            } else if k > i {
                assert(s[i] == a[i]);
            }
        }
        let rest = a.skip(i + 1);
        assert(s.take(i) =~= a.take(i));
        assert(s.skip(i + 1) =~= rest + seq!['\n'] + b);
        lemma_files_are_read_one_by_one(rest, b);
        let head = seq![without_return(a.take(i))];
        lemma_lines_are_read_one_by_one(head, lines(s.skip(i + 1)));
        lemma_lines_are_read_one_by_one(head, lines(rest));
        assert(parsed_lines(head) + (parsed(rest) + parsed(b)) =~= parsed_lines(head) + parsed(rest)
            + parsed(b));
    }
}

/// Trimming a text that does not end with a quote removes a run of quotes at its start, and goes
/// no further than to a character that is none.
proof fn lemma_quotes_at_start(s: Seq<char>, q: char, n: int) -> (k: int)
    requires
        0 <= n < s.len(),
        s[n] != q,
        s.last() != q,
    ensures
        0 <= k <= n,
        s[0] == q ==> k > 0,
        trim(s, CharClass::Only(q)) == s.skip(k),
{
    let class = CharClass::Only(q);
    lemma_trim_start(s, class);
    let k = s.len() - trim_start(s, class).len();
    if k > n {
        assert(class.has(s[n]));
    }
    assert(s.skip(k).last() == s.last());
    assert(s.skip(k)[0] == s[k]);
    k
}

/// Trimming a text in quotes that does not end with a quote of its own removes the quotes around
/// it and a run of quotes at its start.
proof fn lemma_quotes_around(s: Seq<char>, q: char, n: int) -> (k: int)
    requires
        0 <= n < s.len(),
        s[n] != q,
        s.last() != q,
    ensures
        0 <= k <= n,
        s[0] == q ==> k > 0,
        trim(seq![q] + s + seq![q], CharClass::Only(q)) == s.skip(k),
{
    let class = CharClass::Only(q);
    let whole = seq![q] + s + seq![q];
    let t = s + seq![q];
    assert(whole.skip(1) =~= t);
    lemma_trim_start(t, class);
    let k = t.len() - trim_start(t, class).len();
    if k > n {
        assert(class.has(t[n]));
    }
    let u = t.skip(k);
    assert(u[0] == s[k]);
    assert(u.drop_last() =~= s.skip(k));
    assert(s.skip(k).last() == s.last());
    assert(trim_end(s.skip(k), class) == s.skip(k));
    k
}

/// A value in single quotes that starts with a quote loses it, and all that it loses is quotes at
/// its start.
proof fn lemma_unquoted_loses_start(inner: Seq<char>, n: int) -> (k: int)
    requires
        0 <= n < inner.len(),
        !is_quote(inner[n]),
        !is_quote(inner.last()),
        is_quote(inner[0]),
    ensures
        0 < k <= n,
        unquoted(seq!['\''] + inner + seq!['\'']) == inner.skip(k),
{
    let value = seq!['\''] + inner + seq!['\''];
    assert(value[0] == '\'' && value.last() == '\'');
    lemma_trim_fixed(value, CharClass::White);
    let i = lemma_quotes_around(inner, '\'', n);
    let rest = inner.skip(i);
    assert(rest[n - i] == inner[n]);
    assert(rest.last() == inner.last());
    let j = lemma_quotes_at_start(rest, '"', n - i);
    assert(rest.skip(j) =~= inner.skip(i + j));
    if i == 0 {
        assert(rest[0] == inner[0]);
    }
    i + j
}

/// A path that starts with a quote loses it.
proof fn lemma_leading_quote_is_lost(c: ConfigModel)
    requires
        tidy(c),
        c.path.len() > 0,
        is_quote(c.path[0]),
    ensures
        parsed_line(config_line(c)) != Some(c),
{
    let flag = if c.daemon_mode { "true"@ } else { "false"@ };
    let tail = c.command + seq![','] + flag;
    let inner = c.path + seq![','] + tail;
    let value = seq!['\''] + inner + seq!['\''];
    let line = c.name + seq!['='] + value;
    let comma = c.path.len() as int;
    assert(config_line(c) =~= line && inner.last() == 'e') by {
        reveal_strlit("true");
        reveal_strlit("false");
        reveal_strlit("='");
        reveal_strlit(",");
        reveal_strlit("'");
    }
    assert(trim(line, CharClass::White) == line) by {
        lemma_trim_fixed(c.name, CharClass::White);
        assert(line.last() == '\'');
        assert(line[0] == if c.name.len() > 0 { c.name[0] } else { '=' });
        lemma_trim_fixed(line, CharClass::White);
    }
    lemma_find_after(c.name, '=', value);
    assert(line.skip(c.name.len() + 1int) =~= value);
    let k = lemma_unquoted_loses_start(inner, comma);
    let left = c.path.skip(k);
    assert(inner.skip(k) =~= left + seq![','] + tail);
    assert(!left.contains(',')) by {
        if left.contains(',') {
            let n = choose|n: int| 0 <= n < left.len() && left[n] == ',';
            assert(c.path[n + k] == ',');
        }
    }
    lemma_split_after(left, ',', tail);
    assert(split(inner.skip(k), ',')[0] == left);
    lemma_trim_is_no_longer(left, CharClass::White);
}

/// A project can be written to a configuration file and read back unchanged exactly where it is
/// savable.
pub proof fn lemma_savable_is_exact(c: ConfigModel)
    ensures
        parsed(config_text(seq![c])) == seq![c] <==> savable(c),
{
    let cs = seq![c];
    if savable(c) {
        lemma_config_round_trip(cs);
    } else if parsed(config_text(cs)) == cs {
        lemma_parsed_is_tidy(config_text(cs));
        assert(tidy(parsed(config_text(cs))[0]));
        let ls = header_lines() + config_lines(cs);
        lemma_header();
        assert(is_line(config_line(c))) by {
            lemma_tidy_line(c);
        }
        assert forall|i: int| 0 <= i < ls.len() implies is_line(#[trigger] ls[i]) by {
            if i < header_lines().len() {
                assert(ls[i] == header_lines()[i]);
            } else {
                assert(ls[i] == config_line(c));
            }
        }
        lemma_lines_of_unlines(ls);
        lemma_lines_are_read_one_by_one(header_lines(), config_lines(cs));
        lemma_parsed_lines_none(header_lines());
        let only = config_lines(cs);
        assert(only.drop_last() =~= Seq::empty());
        assert(only.last() == config_line(c));
        lemma_leading_quote_is_lost(c);
        assert(parsed_lines(header_lines()) + parsed_lines(only) =~= parsed_lines(only));
        assert(parsed_lines(only.drop_last()) =~= Seq::empty());
        assert(parsed_lines(only)[0] == c);
        assert(parsed_line(config_line(c)) == Some(c));
    }
}

proof fn lemma_comment(s: Seq<char>)
    requires
        s.len() > 0,
        s[0] == '#',
    ensures
        parsed_line(s) is None,
{
    lemma_trim_keeps_first(s, CharClass::White);
}

proof fn lemma_header()
    ensures
        forall|i: int|
            0 <= i < header_lines().len() ==> is_line(#[trigger] header_lines()[i]) && parsed_line(
                header_lines()[i],
            ) is None,
{
    reveal_strlit("# Dev Dashboard Project Configuration");
    reveal_strlit("# Format: project_name='path/to/project,command,daemon_mode'");
    reveal_strlit("# If no command is specified, it defaults to 'ls' (just shows directory contents)");
    reveal_strlit("# If no daemon_mode is specified, it defaults to 'false'");
    reveal_strlit("");
    lemma_comment("# Dev Dashboard Project Configuration"@);
    lemma_comment("# Format: project_name='path/to/project,command,daemon_mode'"@);
    lemma_comment("# If no command is specified, it defaults to 'ls' (just shows directory contents)"@);
    lemma_comment("# If no daemon_mode is specified, it defaults to 'false'"@);
}

proof fn lemma_parsed_lines_none(ls: Seq<Seq<char>>)
    requires
        forall|i: int| 0 <= i < ls.len() ==> parsed_line(#[trigger] ls[i]) is None,
    ensures
        parsed_lines(ls) == Seq::<ConfigModel>::empty(),
    decreases ls.len(),
{
    if ls.len() > 0 {
        lemma_parsed_lines_none(ls.drop_last());
    }
}

proof fn lemma_parsed_header_and(cs: Seq<ConfigModel>)
    requires
        forall|i: int| 0 <= i < cs.len() ==> savable(#[trigger] cs[i]),
    ensures
        parsed_lines(header_lines() + config_lines(cs)) == cs,
    decreases cs.len(),
{
    let ls = header_lines() + config_lines(cs);
    if cs.len() == 0 {
        lemma_header();
        assert(ls =~= header_lines());
        lemma_parsed_lines_none(ls);
        assert(parsed_lines(ls) =~= cs);
    } else {
        let before = cs.drop_last();
        lemma_parsed_header_and(before);
        assert(ls.drop_last() =~= header_lines() + config_lines(before));
        assert(savable(cs[cs.len() - 1]));
        lemma_line_round_trip(cs.last());
        assert(parsed_lines(ls) =~= cs);
    }
}

/// A configuration file that the dashboard has written declares the projects that it was written
/// for, in order and with nothing changed.
pub proof fn lemma_config_round_trip(cs: Seq<ConfigModel>)
    requires
        forall|i: int| 0 <= i < cs.len() ==> savable(#[trigger] cs[i]),
    ensures
        parsed(config_text(cs)) == cs,
{
    let ls = header_lines() + config_lines(cs);
    lemma_header();
    assert forall|i: int| 0 <= i < ls.len() implies is_line(#[trigger] ls[i]) by {
        if i >= header_lines().len() {
            let c = cs[i - header_lines().len()];
            assert(savable(c));
            lemma_line_round_trip(c);
        } else {
            assert(ls[i] == header_lines()[i]);
        }
    }
    lemma_lines_of_unlines(ls);
    lemma_parsed_header_and(cs);
}

proof fn lemma_parsed_line_is_tidy(line: Seq<char>)
    requires
        !line.contains('\n'),
    ensures
        parsed_line(line) matches Some(c) ==> tidy(c),
{
    if let Some(c) = parsed_line(line) {
        let l = trim(line, CharClass::White);
        let equals = find(l, '=');
        let left = l.take(equals);
        let right = l.skip(equals + 1);
        lemma_trim(line, CharClass::White);
        lemma_trim_adds_nothing(line, CharClass::White);
        lemma_find(l, '=');
        assert forall|d: char| left.contains(d) implies l.contains(d) by {
            let k = choose|k: int| 0 <= k < left.len() && left[k] == d;
            assert(l[k] == d);
        }
        assert forall|d: char| right.contains(d) implies l.contains(d) by {
            let k = choose|k: int| 0 <= k < right.len() && right[k] == d;
            assert(l[k + equals + 1] == d);
        }
        lemma_trim(left, CharClass::White);
        lemma_trim_adds_nothing(left, CharClass::White);
        if equals > 0 {
            assert(left[0] == l[0]);
            lemma_trim_keeps_first(left, CharClass::White);
        }
        let a = trim(right, CharClass::White);
        let b = trim(a, CharClass::Only('\''));
        lemma_trim_adds_nothing(right, CharClass::White);
        lemma_trim_adds_nothing(a, CharClass::Only('\''));
        lemma_trim_adds_nothing(b, CharClass::Only('"'));
        let parts = split(unquoted(right), ',');
        lemma_split_pieces(unquoted(right), ',');
        lemma_trim(parts[0], CharClass::White);
        lemma_trim_adds_nothing(parts[0], CharClass::White);
        assert(!left.contains('='));
        assert(!unquoted(right).contains('\n'));
        assert(tidy_name(c.name));
        assert(tidy_part(c.path));
        if parts.len() > 1 {
            lemma_trim(parts[1], CharClass::White);
            lemma_trim_adds_nothing(parts[1], CharClass::White);
        } else {
            reveal_strlit("ls");
            lemma_trim_fixed("ls"@, CharClass::White);
        }
    }
}

proof fn lemma_parsed_lines_are_tidy(ls: Seq<Seq<char>>)
    requires
        forall|i: int| 0 <= i < ls.len() ==> !(#[trigger] ls[i]).contains('\n'),
    ensures
        forall|i: int| 0 <= i < parsed_lines(ls).len() ==> tidy(#[trigger] parsed_lines(ls)[i]),
    decreases ls.len(),
{
    if ls.len() > 0 {
        lemma_parsed_lines_are_tidy(ls.drop_last());
        assert(!ls[ls.len() - 1].contains('\n'));
        lemma_parsed_line_is_tidy(ls.last());
        assert forall|i: int| 0 <= i < parsed_lines(ls).len() implies tidy(
            #[trigger] parsed_lines(ls)[i],
        ) by {
            if i < parsed_lines(ls.drop_last()).len() {
                assert(parsed_lines(ls)[i] == parsed_lines(ls.drop_last())[i]);
            }
        }
    }
}

/// Whatever a configuration file holds, the projects read from it are tidy.
pub proof fn lemma_parsed_is_tidy(content: Seq<char>)
    ensures
        forall|i: int| 0 <= i < parsed(content).len() ==> tidy(#[trigger] parsed(content)[i]),
{
    lemma_lines_have_no_feed(content);
    lemma_parsed_lines_are_tidy(lines(content));
}

/// Reading a configuration file and writing it again keeps the projects, as long as none of
/// their paths starts with a quote.
pub proof fn lemma_rewriting_keeps_projects(content: Seq<char>)
    requires
        forall|i: int|
            0 <= i < parsed(content).len() ==> (#[trigger] parsed(content)[i]).path.len() > 0
                ==> !is_quote(parsed(content)[i].path[0]),
    ensures
        parsed(config_text(parsed(content))) == parsed(content),
{
    lemma_parsed_is_tidy(content);
    assert forall|i: int| 0 <= i < parsed(content).len() implies savable(
        #[trigger] parsed(content)[i],
    ) by {
        assert(tidy(parsed(content)[i]));
    }
    lemma_config_round_trip(parsed(content));
}

/// The configuration file that is written where there is none yet.
pub open spec fn default_lines() -> Seq<Seq<char>> {
    seq![
        "# Dev Dashboard Project Configuration"@,
        "# Format: project_name='path/to/project,command,daemon_mode'"@,
        "# If no command is specified, it defaults to 'ls' (just shows directory contents)"@,
        "# If no daemon_mode is specified, it defaults to 'false'"@,
        ""@,
        "# Common development commands:"@,
        "# dotnet run          - Run .NET application"@,
        "# npm start           - Start Node.js development server"@,
        "# npm run dev         - Start development server"@,
        "# yarn dev            - Start development server with Yarn"@,
        "# python -m uvicorn   - Start Python FastAPI server"@,
        "# cargo run           - Run Rust application"@,
        "# docker-compose up   - Start Docker services"@,
        "# go run main.go      - Run Go application"@,
        ""@,
        "# Example projects (uncomment and modify as needed):"@,
        "# kumiko-web='/Users/jonathangulliksen/code/kumiko-web,npm start,false'"@,
        "# backend-api='/Users/jonathangulliksen/code/backend,dotnet run,true'"@,
        "# frontend-react='/Users/jonathangulliksen/code/frontend,npm run dev,false'"@,
        "# database='/Users/jonathangulliksen/code/db,docker-compose up,true'"@,
        "# rust-service='/Users/jonathangulliksen/code/rust-service,cargo run,false'"@,
        "# python-api='/Users/jonathangulliksen/code/python-api,python -m uvicorn main:app --reload,true'"@,
        ""@,
        "# Add your projects below:"@,
    ]
}

/// Writes the configuration file that is offered where there is none yet.
pub fn create_default_config() -> (r: String)
    ensures
        r@ == unlines(default_lines()),
{
    let mut ls: Vec<String> = Vec::new();
    ls.push("# Dev Dashboard Project Configuration".to_string());
    ls.push("# Format: project_name='path/to/project,command,daemon_mode'".to_string());
    ls.push("# If no command is specified, it defaults to 'ls' (just shows directory contents)".to_string());
    ls.push("# If no daemon_mode is specified, it defaults to 'false'".to_string());
    ls.push("".to_string());
    ls.push("# Common development commands:".to_string());
    ls.push("# dotnet run          - Run .NET application".to_string());
    ls.push("# npm start           - Start Node.js development server".to_string());
    ls.push("# npm run dev         - Start development server".to_string());
    ls.push("# yarn dev            - Start development server with Yarn".to_string());
    ls.push("# python -m uvicorn   - Start Python FastAPI server".to_string());
    ls.push("# cargo run           - Run Rust application".to_string());
    ls.push("# docker-compose up   - Start Docker services".to_string());
    ls.push("# go run main.go      - Run Go application".to_string());
    ls.push("".to_string());
    ls.push("# Example projects (uncomment and modify as needed):".to_string());
    ls.push("# kumiko-web='/Users/jonathangulliksen/code/kumiko-web,npm start,false'".to_string());
    ls.push("# backend-api='/Users/jonathangulliksen/code/backend,dotnet run,true'".to_string());
    ls.push("# frontend-react='/Users/jonathangulliksen/code/frontend,npm run dev,false'".to_string());
    ls.push("# database='/Users/jonathangulliksen/code/db,docker-compose up,true'".to_string());
    ls.push("# rust-service='/Users/jonathangulliksen/code/rust-service,cargo run,false'".to_string());
    ls.push("# python-api='/Users/jonathangulliksen/code/python-api,python -m uvicorn main:app --reload,true'".to_string());
    ls.push("".to_string());
    ls.push("# Add your projects below:".to_string());
    assert(texts(ls@) =~= default_lines());
    let mut content = String::new();
    append_lines(&mut content, &ls);
    assert(content@ =~= unlines(default_lines()));
    content
}

/// What came of reading the configuration file.
#[derive(Debug, Clone)]
pub enum ConfigFile {
    /// It holds this text.
    Content(String),
    /// There is none.
    Missing,
    /// There is one, but it could not be read as text.
    Unreadable,
}

impl ConfigFile {
    /// The configuration file that is to be written before the dashboard opens: the one that is
    /// offered where there is none. A file that is there is left as it is.
    pub fn default_to_write(&self) -> (r: Option<String>)
        ensures
            r is Some <==> self is Missing,
            r matches Some(text) ==> text@ == unlines(default_lines()),
    {
        match self {
            ConfigFile::Missing => Some(create_default_config()),
            _ => None,
        }
    }

    /// The text of the file, where it could be read.
    pub fn content(&self) -> (r: Option<&str>)
        ensures
            r is Some <==> self is Content,
            self matches ConfigFile::Content(text) ==> (r matches Some(t) && t@ == text@),
    {
        match self {
            ConfigFile::Content(text) => Some(text.as_str()),
            _ => None,
        }
    }
}

/// The configuration file that is offered where there is none yet declares no project.
pub proof fn lemma_default_config_declares_nothing()
    ensures
        parsed(unlines(default_lines())) == Seq::<ConfigModel>::empty(),
{
    reveal_strlit("# Dev Dashboard Project Configuration");
    reveal_strlit("# Format: project_name='path/to/project,command,daemon_mode'");
    reveal_strlit("# If no command is specified, it defaults to 'ls' (just shows directory contents)");
    reveal_strlit("# If no daemon_mode is specified, it defaults to 'false'");
    reveal_strlit("");
    reveal_strlit("# Common development commands:");
    reveal_strlit("# dotnet run          - Run .NET application");
    reveal_strlit("# npm start           - Start Node.js development server");
    reveal_strlit("# npm run dev         - Start development server");
    reveal_strlit("# yarn dev            - Start development server with Yarn");
    reveal_strlit("# python -m uvicorn   - Start Python FastAPI server");
    reveal_strlit("# cargo run           - Run Rust application");
    reveal_strlit("# docker-compose up   - Start Docker services");
    reveal_strlit("# go run main.go      - Run Go application");
    reveal_strlit("# Example projects (uncomment and modify as needed):");
    reveal_strlit("# kumiko-web='/Users/jonathangulliksen/code/kumiko-web,npm start,false'");
    reveal_strlit("# backend-api='/Users/jonathangulliksen/code/backend,dotnet run,true'");
    reveal_strlit("# frontend-react='/Users/jonathangulliksen/code/frontend,npm run dev,false'");
    reveal_strlit("# database='/Users/jonathangulliksen/code/db,docker-compose up,true'");
    reveal_strlit("# rust-service='/Users/jonathangulliksen/code/rust-service,cargo run,false'");
    reveal_strlit("# python-api='/Users/jonathangulliksen/code/python-api,python -m uvicorn main:app --reload,true'");
    reveal_strlit("# Add your projects below:");
    lemma_comment("# Dev Dashboard Project Configuration"@);
    lemma_comment("# Format: project_name='path/to/project,command,daemon_mode'"@);
    lemma_comment("# If no command is specified, it defaults to 'ls' (just shows directory contents)"@);
    lemma_comment("# If no daemon_mode is specified, it defaults to 'false'"@);
    lemma_comment("# Common development commands:"@);
    lemma_comment("# dotnet run          - Run .NET application"@);
    lemma_comment("# npm start           - Start Node.js development server"@);
    lemma_comment("# npm run dev         - Start development server"@);
    lemma_comment("# yarn dev            - Start development server with Yarn"@);
    lemma_comment("# python -m uvicorn   - Start Python FastAPI server"@);
    lemma_comment("# cargo run           - Run Rust application"@);
    lemma_comment("# docker-compose up   - Start Docker services"@);
    lemma_comment("# go run main.go      - Run Go application"@);
    lemma_comment("# Example projects (uncomment and modify as needed):"@);
    lemma_comment("# kumiko-web='/Users/jonathangulliksen/code/kumiko-web,npm start,false'"@);
    lemma_comment("# backend-api='/Users/jonathangulliksen/code/backend,dotnet run,true'"@);
    lemma_comment("# frontend-react='/Users/jonathangulliksen/code/frontend,npm run dev,false'"@);
    lemma_comment("# database='/Users/jonathangulliksen/code/db,docker-compose up,true'"@);
    lemma_comment("# rust-service='/Users/jonathangulliksen/code/rust-service,cargo run,false'"@);
    lemma_comment("# python-api='/Users/jonathangulliksen/code/python-api,python -m uvicorn main:app --reload,true'"@);
    lemma_comment("# Add your projects below:"@);
    assert(forall|i: int| 0 <= i < default_lines().len() ==> is_line(#[trigger] default_lines()[i]));
    lemma_lines_of_unlines(default_lines());
    lemma_parsed_lines_none(default_lines());
}

} // verus!
