//! The files of a new project.

use crate::config::{add_line, dependencies_header, quoted, settings_header};
use crate::lines::{join_lines, joined};
use vstd::prelude::*;
use vstd::string::StringExecFns;

verus! {

/// What is to be done to make a new project.
#[derive(Debug)]
pub struct NewProject {
    /// The directories to create.
    pub dirs: Vec<String>,
    /// The files to create, empty.
    pub files: Vec<String>,
    /// The files to write then, with their contents.
    pub texts: Vec<(String, String)>,
}

/// What a new project ignores in version control.
pub open spec fn gitignore_text() -> Seq<char> {
    "# General Python ignores\n\nbuild/\ndist/\n__pycache__/\n.ipynb_checkpoints/\n*.pyc\n*~\n*/.mypy_cache/\n\n\n# Project ignores\n"@
}

/// The lines of the project file of a new project.
pub open spec fn pyproject_lines(name: Seq<char>) -> Seq<Seq<char>> {
    seq![
        settings_header(),
        "name = \""@ + name + "\""@,
        "py_version = \"3.7\""@,
        "version = \"0.1.0\""@,
        "description = \"\""@,
        "author = \"\""@,
        ""@,
        "pyackage_url = \"https://test.pypi.org\""@,
        "# pyackage_url = \"https://pypi.org\""@,
        ""@,
        dependencies_header(),
    ]
}

/// What to create for a new project: nothing, where something of its name exists.
pub open spec fn files_to_create(name: Seq<char>, exists: bool) -> Seq<Seq<char>> {
    if exists {
        Seq::empty()
    } else {
        seq![
            name + "/"@ + name + "/main.py"@,
            name + "/README.md"@,
            name + "/LICENSE"@,
            name + "/pyproject.toml"@,
            name + "/.gitignore"@,
        ]
    }
}

/// What to write for a new project.
pub open spec fn files_to_write(name: Seq<char>) -> Seq<(Seq<char>, Seq<char>)> {
    seq![
        (name + "/.gitignore"@, gitignore_text()),
        (name + "/pyproject.toml"@, joined(pyproject_lines(name))),
        (name + "/README.md"@, "# "@ + name),
    ]
}

/// `start`, then `end`.
fn glued(start: &str, end: &str) -> (text: String)
    ensures
        text@ == start@ + end@,
{
    start.to_owned().concat(end)
}

/// The text of the project file of a new project.
pub fn pyproject_init(name: &str) -> (text: String)
    ensures
        text@ == joined(pyproject_lines(name@)),
{
    let mut lines: Vec<String> = Vec::new();
    add_line(&mut lines, "[tool.pypackage]".to_owned());
    add_line(&mut lines, quoted("name = \"", name));
    add_line(&mut lines, "py_version = \"3.7\"".to_owned());
    add_line(&mut lines, "version = \"0.1.0\"".to_owned());
    add_line(&mut lines, "description = \"\"".to_owned());
    add_line(&mut lines, "author = \"\"".to_owned());
    add_line(&mut lines, "".to_owned());
    add_line(&mut lines, "pyackage_url = \"https://test.pypi.org\"".to_owned());
    add_line(&mut lines, "# pyackage_url = \"https://pypi.org\"".to_owned());
    add_line(&mut lines, "".to_owned());
    add_line(&mut lines, "[tool.pypackage.dependencies]".to_owned());
    assert(lines.deep_view() =~= pyproject_lines(name@));
    join_lines(&lines)
}

/// Creates a template directory for a Python project, unless something of its name exists,
/// and writes the template's files.
pub fn new(name: &str, exists: bool) -> (project: NewProject)
    ensures
        project.dirs.deep_view() == (if exists {
            Seq::empty()
        } else {
            seq![name@ + "/"@ + name@]
        }),
        project.files.deep_view() == files_to_create(name@, exists),
        project.texts.deep_view() == files_to_write(name@),
{
    let mut dirs: Vec<String> = Vec::new();
    let mut files: Vec<String> = Vec::new();
    if !exists {
        let dir = glued(name, "/").concat(name);
        add_line(&mut files, dir.clone().concat("/main.py"));
        add_line(&mut dirs, dir);
        add_line(&mut files, glued(name, "/README.md"));
        add_line(&mut files, glued(name, "/LICENSE"));
        add_line(&mut files, glued(name, "/pyproject.toml"));
        add_line(&mut files, glued(name, "/.gitignore"));
    }
    assert(dirs.deep_view() =~= (if exists {
        Seq::empty()
    } else {
        seq![name@ + "/"@ + name@]
    }));
    assert(files.deep_view() =~= files_to_create(name@, exists));
    let mut texts: Vec<(String, String)> = Vec::new();
    texts.push(
        (
            glued(name, "/.gitignore"),
            "# General Python ignores\n\nbuild/\ndist/\n__pycache__/\n.ipynb_checkpoints/\n*.pyc\n*~\n*/.mypy_cache/\n\n\n# Project ignores\n".to_owned(),
        ),
    );
    texts.push((glued(name, "/pyproject.toml"), pyproject_init(name)));
    texts.push((glued(name, "/README.md"), glued("# ", name)));
    assert(texts.deep_view() =~= files_to_write(name@));
    NewProject { dirs, files, texts }
}

/// A new project lies in a directory of its name, with the code in a directory of the same
/// name in it. Where something of its name exists, nothing is created. The same three files are
/// written in any case: what to ignore, the project file and a readme with the name as its
/// heading.
pub proof fn projects_lie_in_a_directory_of_their_name(
    name: &str,
    is_there: bool,
    project: NewProject,
    settings: String,
)
    requires
        call_ensures(new, (name, is_there), project),
        call_ensures(pyproject_init, (name,), settings),
    ensures
        is_there ==> project.dirs@.len() == 0 && project.files@.len() == 0,
        !is_there ==> {
            &&& project.dirs@.len() == 1
            &&& project.dirs@[0]@ == name@ + "/"@ + name@
            &&& project.files@.len() == 5
            &&& project.files@[0]@ == name@ + "/"@ + name@ + "/main.py"@
            &&& project.files@[1]@ == name@ + "/README.md"@
            &&& project.files@[2]@ == name@ + "/LICENSE"@
            &&& project.files@[3]@ == name@ + "/pyproject.toml"@
            &&& project.files@[4]@ == name@ + "/.gitignore"@
        },
        project.texts@.len() == 3,
        project.texts@[0].0@ == name@ + "/.gitignore"@,
        project.texts@[1].0@ == name@ + "/pyproject.toml"@,
        project.texts@[1].1@ == settings@,
        project.texts@[2].0@ == name@ + "/README.md"@,
        project.texts@[2].1@ == "# "@ + name@,
{
    let dirs = project.dirs.deep_view();
    let files = project.files.deep_view();
    let texts = project.texts.deep_view();
    assert(dirs.len() == project.dirs@.len());
    assert(files.len() == project.files@.len());
    assert(texts.len() == project.texts@.len());
    if !is_there {
        assert(dirs[0] == project.dirs@[0]@);
        assert(files[0] == project.files@[0]@);
        assert(files[1] == project.files@[1]@);
        assert(files[2] == project.files@[2]@);
        assert(files[3] == project.files@[3]@);
        assert(files[4] == project.files@[4]@);
    }
    assert(texts[0] == project.texts@[0].deep_view());
    assert(texts[1] == project.texts@[1].deep_view());
    assert(texts[2] == project.texts@[2].deep_view());
}

/// What a new project ignores does not depend on its name, nor on what exists.
pub proof fn projects_ignore_the_same(
    one: (&str, bool),
    other: (&str, bool),
    first: NewProject,
    second: NewProject,
)
    requires
        call_ensures(new, (one.0, one.1), first),
        call_ensures(new, (other.0, other.1), second),
    ensures
        first.texts@.len() == 3 && second.texts@.len() == 3,
        first.texts@[0].1@ == second.texts@[0].1@,
{
    assert(first.texts.deep_view().len() == first.texts@.len());
    assert(second.texts.deep_view().len() == second.texts@.len());
    assert(first.texts.deep_view()[0] == first.texts@[0].deep_view());
    assert(second.texts.deep_view()[0] == second.texts@[0].deep_view());
}

} // verus!
