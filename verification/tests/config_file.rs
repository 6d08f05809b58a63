use dev_dashboard::config::{create_default_config, ConfigFile, load_projects, save_projects_config};
use dev_dashboard::project::{Project, ProjectConfig, ProjectStatus};

fn fields(project: &Project) -> (&str, &str, &str, bool) {
    let c = &project.config;
    (c.name.as_str(), c.path.as_str(), c.command.as_str(), c.daemon_mode)
}

fn project(name: &str, path: &str, command: &str, daemon_mode: bool) -> Project {
    Project {
        config: ProjectConfig {
            name: name.to_string(),
            path: path.to_string(),
            command: command.to_string(),
            daemon_mode,
        },
        status: ProjectStatus::Stopped,
    }
}

#[test]
fn full_entry_is_read() {
    let projects = load_projects("web='/code/web,npm start,true'\n");
    assert_eq!(projects.len(), 1);
    assert_eq!(fields(&projects[0]), ("web", "/code/web", "npm start", true));
    assert!(matches!(projects[0].status, ProjectStatus::Stopped));
}

#[test]
fn missing_parts_have_defaults() {
    let projects = load_projects("a='/a'\nb='/b,make'\nc='/c,make,yes'\nd=''\n");
    assert_eq!(fields(&projects[0]), ("a", "/a", "ls", false));
    assert_eq!(fields(&projects[1]), ("b", "/b", "make", false));
    assert_eq!(fields(&projects[2]), ("c", "/c", "make", false));
    assert_eq!(fields(&projects[3]), ("d", "", "ls", false));
}

#[test]
fn comments_and_blank_lines_are_skipped() {
    let projects = load_projects("# a='/a'\n\n   \n  # b='/b'\nno entry here\nc=/c\n");
    assert_eq!(projects.len(), 1);
    assert_eq!(fields(&projects[0]), ("c", "/c", "ls", false));
}

#[test]
fn quotes_and_white_space_are_stripped() {
    let content = "  web  =  \"/code/web , npm run dev , true\"  \r\n\tapi = ''/api,x''";
    let projects = load_projects(content);
    assert_eq!(fields(&projects[0]), ("web", "/code/web", "npm run dev", true));
    assert_eq!(fields(&projects[1]), ("api", "/api", "x", false));
}

#[test]
fn unicode_white_space_is_stripped() {
    let projects = load_projects("\u{3000}n\u{a0}=\u{2003}/p\u{85},c\u{202f},\u{1680}true\u{2028}");
    assert_eq!(fields(&projects[0]), ("n", "/p", "c", true));
}

#[test]
fn only_the_first_equals_sign_counts() {
    let projects = load_projects("api='/api,env A=1 run,false'");
    assert_eq!(fields(&projects[0]), ("api", "/api", "env A=1 run", false));
}

#[test]
fn further_parts_are_ignored() {
    let projects = load_projects("x='/p,c,true,more,parts'");
    assert_eq!(fields(&projects[0]), ("x", "/p", "c", true));
}

#[test]
fn name_may_be_empty() {
    let projects = load_projects("='/p,c,false'");
    assert_eq!(fields(&projects[0]), ("", "/p", "c", false));
}

#[test]
fn empty_file_declares_nothing() {
    assert_eq!(load_projects("").len(), 0);
}

#[test]
fn written_file_has_the_documented_form() {
    let text = save_projects_config(&vec![
        project("web", "/code/web", "npm start", true),
        project("api", "/api", "cargo run", false),
    ]);
    assert_eq!(
        text,
        "# Dev Dashboard Project Configuration\n\
         # Format: project_name='path/to/project,command,daemon_mode'\n\
         # If no command is specified, it defaults to 'ls' (just shows directory contents)\n\
         # If no daemon_mode is specified, it defaults to 'false'\n\n\
         web='/code/web,npm start,true'\n\
         api='/api,cargo run,false'\n"
    );
}

#[test]
fn written_file_is_read_back() {
    let projects = vec![
        project("web", "/code/web", "npm start", true),
        project("", "", "", false),
        project("it's", "/a 'b'", "'quoted'", false),
    ];
    let again = load_projects(&save_projects_config(&projects));
    assert_eq!(again.len(), 3);
    for (a, b) in projects.iter().zip(&again) {
        assert_eq!(fields(a), fields(b));
    }
}

#[test]
fn leading_quote_of_a_path_is_lost() {
    let again = load_projects(&save_projects_config(&vec![project("a", "'x", "c", false)]));
    assert_eq!(fields(&again[0]), ("a", "x", "c", false));
}

#[test]
fn default_file_declares_nothing() {
    let text = create_default_config();
    assert!(text.starts_with("# Dev Dashboard Project Configuration\n# Format: "));
    assert!(text.ends_with("\n\n# Add your projects below:\n"));
    assert_eq!(text.lines().count(), 24);
    assert_eq!(load_projects(&text).len(), 0);
}

#[test]
fn default_is_written_only_where_there_is_no_file() {
    let text = ConfigFile::Missing.default_to_write().unwrap();
    assert_eq!(text, create_default_config());
    assert!(ConfigFile::Missing.content().is_none());
    assert!(ConfigFile::Unreadable.default_to_write().is_none());
    assert!(ConfigFile::Unreadable.content().is_none());
    let file = ConfigFile::Content("a=/a".to_string());
    assert!(file.default_to_write().is_none());
    assert_eq!(file.content(), Some("a=/a"));
}

#[test]
fn files_are_read_one_by_one() {
    for a in ["", "a=/a", "a=/a\r", "a=/a\n", "# a\r\n\r"] {
        for b in ["", "b=/b", "\nb=/b\r\n"] {
            let whole = load_projects(&format!("{a}\n{b}"));
            let (first, second) = (load_projects(a), load_projects(b));
            let parts: Vec<_> = first.iter().chain(&second).map(fields).collect();
            assert_eq!(whole.iter().map(fields).collect::<Vec<_>>(), parts);
        }
    }
}
