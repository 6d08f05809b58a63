//! Where the dashboard keeps its files.

use std::path::PathBuf;

use vstd::prelude::*;

use crate::text::texts;

verus! {

/// A path of the file system, carried from the operating system to the operating system.
#[verifier::external_type_specification]
#[verifier::external_body]
pub struct ExPathBuf(PathBuf);

/// The place of a file or a directory: names to be joined, one below the other, to a directory,
/// or to nothing where there is none.
#[derive(Debug, Clone)]
pub struct Place {
    /// The directory.
    pub base: Option<PathBuf>,
    /// The names below it.
    pub names: Vec<String>,
}

/// `dirs::config_dir`: the directory for the configuration of programs, if the environment names
/// one. Left unsaid is which one that is: it depends on the environment alone.
#[verifier::external_body]
fn config_dir() -> (r: Option<PathBuf>) {
    dirs::config_dir()
}

/// The names that lead from the configuration directory, or from the current directory where
/// there is none, to a file or directory of the dashboard.
pub open spec fn names_below(base: Option<PathBuf>, name: Seq<char>) -> Seq<Seq<char>> {
    if base is Some {
        seq!["dev-dashboard"@, name]
    } else {
        seq!["."@, "dev-dashboard"@, name]
    }
}

/// The place of a file or directory of the dashboard, given the configuration directory.
pub fn place_below(base: Option<PathBuf>, name: &str) -> (r: Place)
    ensures
        r.base == base,
        texts(r.names@) == names_below(base, name@),
{
    let mut names: Vec<String> = Vec::new();
    if base.is_none() {
        names.push(".".to_string());
    }
    names.push("dev-dashboard".to_string());
    names.push(name.to_string());
    assert(texts(names@) =~= names_below(base, name@));
    Place { base, names }
}

/// The place of the configuration file.
pub fn get_config_path() -> (r: Place)
    ensures
        texts(r.names@) == names_below(r.base, "projects.conf"@),
{
    place_below(config_dir(), "projects.conf")
}

/// The place of the directory in which daemons are remembered.
pub fn get_daemon_dir() -> (r: Place)
    ensures
        texts(r.names@) == names_below(r.base, "daemons"@),
{
    place_below(config_dir(), "daemons")
}

/// The place of the file in which the daemon of a project is remembered, given the directory.
pub fn daemon_file_in(dir: Place, project_name: &str) -> (r: Place)
    ensures
        r.base == dir.base,
        texts(r.names@) == texts(dir.names@).push(project_name@ + ".json"@),
{
    let mut file = project_name.to_string();
    file.append(".json");
    let mut names = dir.names;
    names.push(file);
    assert(texts(names@) =~= texts(dir.names@).push(project_name@ + ".json"@));
    Place { base: dir.base, names }
}

/// The place of the file in which the daemon of a project is remembered.
pub fn get_daemon_file_path(project_name: &str) -> (r: Place)
    ensures
        texts(r.names@) == names_below(r.base, "daemons"@).push(project_name@ + ".json"@),
{
    daemon_file_in(get_daemon_dir(), project_name)
}

/// The configuration file and the directory of the daemons stand beside each other, in the
/// directory of the dashboard below the configuration directory, or below the current directory
/// where there is none.
pub proof fn lemma_places(base: Option<PathBuf>, name: Seq<char>)
    ensures
        base is Some ==> names_below(base, name) == seq!["dev-dashboard"@, name],
        base is None ==> names_below(base, name) == seq!["."@, "dev-dashboard"@, name],
        names_below(base, "projects.conf"@).drop_last() == names_below(
            base,
            "daemons"@,
        ).drop_last(),
        names_below(base, name).last() == name,
{
    assert(names_below(base, "projects.conf"@).drop_last() =~= names_below(
        base,
        "daemons"@,
    ).drop_last());
}

} // verus!
