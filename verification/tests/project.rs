use pypackage::config::{read_entries, Entry};
use pypackage::project::{new, pyproject_init};

const PYPROJECT: &str = "[tool.pypackage]
name = \"demo\"
py_version = \"3.7\"
version = \"0.1.0\"
description = \"\"
author = \"\"

pyackage_url = \"https://test.pypi.org\"
# pyackage_url = \"https://pypi.org\"

[tool.pypackage.dependencies]
";

const GITIGNORE: &str = "# General Python ignores

build/
dist/
__pycache__/
.ipynb_checkpoints/
*.pyc
*~
*/.mypy_cache/


# Project ignores
";

#[test]
fn a_new_project_gets_its_files() {
    let project = new("demo", false);
    assert_eq!(project.dirs, vec!["demo/demo"]);
    assert_eq!(
        project.files,
        vec![
            "demo/demo/main.py",
            "demo/README.md",
            "demo/LICENSE",
            "demo/pyproject.toml",
            "demo/.gitignore",
        ]
    );
    assert_eq!(
        project.texts,
        vec![
            ("demo/.gitignore".to_string(), GITIGNORE.to_string()),
            ("demo/pyproject.toml".to_string(), PYPROJECT.to_string()),
            ("demo/README.md".to_string(), "# demo".to_string()),
        ]
    );
}

#[test]
fn an_existing_directory_is_only_written_to() {
    let project = new("demo", true);
    assert!(project.dirs.is_empty() && project.files.is_empty());
    assert_eq!(project.texts.len(), 3);
    assert_eq!(project.texts[1].1, PYPROJECT);
}

#[test]
fn the_file_of_a_new_project_is_read_back() {
    for name in ["demo", "a \"b\" #c", ""] {
        let lines: Vec<String> = pyproject_init(name).lines().map(|l| l.to_string()).collect();
        let entries = read_entries(&lines);
        assert_eq!(entries.len(), 4);
        assert!(matches!(&entries[0], Entry::Name(n) if n == name));
        assert!(matches!(&entries[1], Entry::PyVersion(v) if v == "3.7"));
        assert!(matches!(&entries[2], Entry::Version(v) if v == "0.1.0"));
        assert!(matches!(&entries[3], Entry::Description(d) if d.is_empty()));
    }
}

#[test]
fn a_name_with_brackets_is_taken_for_a_table() {
    let lines: Vec<String> = pyproject_init("a[b]").lines().map(|l| l.to_string()).collect();
    assert!(read_entries(&lines).is_empty());
}
