use pypackage::config::{read_entries, Config, Entry};
use pypackage::version::{Constraint, Req, Version};

fn lines(text: &str) -> Vec<String> {
    text.lines().map(|l| l.to_string()).collect()
}

fn read_version(text: &str) -> Option<Version> {
    let numbers: Option<Vec<u32>> = text.split('.').map(|n| n.parse().ok()).collect();
    match numbers?.as_slice() {
        [major] => Some(Version::new_short(*major, 0)),
        [major, minor] => Some(Version::new_short(*major, *minor)),
        [major, minor, patch] => Some(Version::new(*major, *minor, *patch)),
        _ => None,
    }
}

fn read_req(text: &str) -> Option<Req> {
    let (name, rest) = text.split_once(" = ")?;
    Some(Req { name: name.to_string(), constraints: vec![Constraint::Written(rest.to_string())] })
}

fn show_version(v: &Version) -> String {
    format!("{}.{}.{}", v.major, v.minor, v.patch)
}

fn show_req(r: &Req) -> String {
    match r.constraints.first() {
        Some(Constraint::Written(text)) => format!("{} = {}", r.name, text),
        Some(Constraint::Exact(v)) => format!("{} = \"{}\"", r.name, show_version(v)),
        None => r.name.clone(),
    }
}

fn texts(entries: &[Entry]) -> Vec<String> {
    entries
        .iter()
        .map(|e| match e {
            Entry::Name(t) => format!("name {}", t),
            Entry::Description(t) => format!("description {}", t),
            Entry::Version(t) => format!("version {}", t),
            Entry::PyVersion(t) => format!("py_version {}", t),
            Entry::Dependency(t) => format!("dependency {}", t),
        })
        .collect()
}

#[test]
fn settings_and_requirements_are_read() {
    let file = lines(
        "[tool.pypackage]\nname = \"demo\"\npy_version=\"3.7\"\nversion  =\t\"0.1.0\"\n\
         description = \"a \"quoted\" word\"\nauthor = \"me\"\n\n\
         [tool.pypackage.dependencies]\nnumpy = \"^1.16\"\n\nscipy = \"*\"\n",
    );
    let config = Config::from_lines(&file, read_version, read_req).unwrap();
    assert_eq!(config.name, Some("demo".to_string()));
    assert_eq!(config.py_version, Some(Version::new_short(3, 7)));
    assert_eq!(config.version, Some(Version::new(0, 1, 0)));
    assert_eq!(config.description, Some("a \"quoted\" word".to_string()));
    assert_eq!(config.author, None);
    assert_eq!(config.dependencies.len(), 2);
    assert_eq!(config.dependencies[0].name, "numpy");
    assert_eq!(config.dependencies[1].name, "scipy");
}

#[test]
fn an_empty_file_gives_an_empty_config() {
    let config = Config::from_lines(&Vec::new(), read_version, read_req).unwrap();
    assert_eq!(config.name, None);
    assert_eq!(config.version, None);
    assert!(config.dependencies.is_empty());
    let default = Config::default();
    assert_eq!(default.py_version, None);
    assert!(default.keywords.is_empty() && default.classifiers.is_empty());
}

#[test]
fn lines_outside_the_tables_are_passed_over() {
    let file = lines(
        "name = \"a\"\n[tool.other]\nname = \"b\"\n[tool.pypackage]\nname = \"c\"\n[x]\nname = \"d\"",
    );
    assert_eq!(texts(&read_entries(&file)), vec!["name c"]);
}

#[test]
fn brackets_in_a_line_close_the_table() {
    let file = lines("[tool.pypackage]\nname = \"a[b]\"\nversion = \"1\"");
    assert!(read_entries(&file).is_empty());
    let reversed = lines("[tool.pypackage]\nname = \"a]b[\"\nversion = \"1\"");
    assert_eq!(texts(&read_entries(&reversed)), vec!["name a]b[", "version 1"]);
}

#[test]
fn headers_must_match_to_the_letter() {
    let file = lines("[tool.pypackage] \nname = \"a\"");
    assert!(read_entries(&file).is_empty());
}

#[test]
fn comments_are_skipped_wherever_they_stand() {
    let with = lines(
        "# one\n[tool.pypackage]\n#name = \"x\"\nname = \"a\"\n# [x]\nversion = \"1\"\n\
         [tool.pypackage.dependencies]\n# no\nnumpy = \"1\"",
    );
    let without = lines(
        "[tool.pypackage]\nname = \"a\"\nversion = \"1\"\n[tool.pypackage.dependencies]\nnumpy = \"1\"",
    );
    assert_eq!(texts(&read_entries(&with)), texts(&read_entries(&without)));
    assert_eq!(
        texts(&read_entries(&with)),
        vec!["name a", "version 1", "dependency numpy = \"1\""]
    );
}

#[test]
fn empty_lines_are_skipped_wherever_they_stand() {
    let with = lines(
        "\n[tool.pypackage]\n\nname = \"a\"\n\n\n[tool.pypackage.dependencies]\n\nnumpy = \"1\"\n\nscipy",
    );
    let without = lines(
        "[tool.pypackage]\nname = \"a\"\n[tool.pypackage.dependencies]\nnumpy = \"1\"\nscipy",
    );
    assert_eq!(with.len(), without.len() + 6);
    assert_eq!(texts(&read_entries(&with)), texts(&read_entries(&without)));
    assert_eq!(
        texts(&read_entries(&with)),
        vec!["name a", "dependency numpy = \"1\"", "dependency scipy"]
    );
}

#[test]
fn a_written_project_is_read_back() {
    let mut project = sample();
    project.author = None;
    let text = project.file_text(show_version, show_req);
    let read = Config::from_lines(&lines(&text), read_version, read_req).unwrap();
    assert_eq!(read.name, Some("demo".to_string()));
    assert_eq!(read.version, Some(Version::new_short(3, 7)));
    assert_eq!(read.py_version, None);
    assert_eq!(read.description, None);
    assert_eq!(read.author, None);
    let reqs: Vec<String> = read.dependencies.iter().map(show_req).collect();
    assert_eq!(reqs, vec!["numpy = \"^1\"", "scipy = \"*\""]);

    let nameless = Config::default().file_text(show_version, show_req);
    let read = Config::from_lines(&lines(&nameless), read_version, read_req).unwrap();
    assert_eq!(read.name, Some(String::new()));
    assert_eq!(read.version, None);
    assert!(read.dependencies.is_empty());
}

#[test]
fn dotted_versions_among_the_settings_are_passed_over() {
    let file = lines("[tool.pypackage]\n0.1.0\nname = \"a\"\n...\n3.7\nversion = \"1.2\"");
    assert_eq!(texts(&read_entries(&file)), vec!["name a", "version 1.2"]);
}

#[test]
fn empty_versions_do_not_count_but_empty_names_do() {
    let file = lines(
        "[tool.pypackage]\nname = \"\"\ndescription = \"\"\nversion = \"\"\npy_version = \"\"",
    );
    assert_eq!(texts(&read_entries(&file)), vec!["name ", "description "]);
}

#[test]
fn keys_must_start_the_line_and_be_quoted() {
    let file = lines(
        "[tool.pypackage]\n name = \"a\"\nname2 = \"b\"\nname = c\nname = \"d\" # x\nmy_version = \"1\"",
    );
    assert!(read_entries(&file).is_empty());
}

#[test]
fn later_settings_win_and_requirements_add_up() {
    let file = lines(
        "[tool.pypackage]\nname = \"a\"\nname = \"b\"\n[tool.pypackage.dependencies]\nx = 1\n\
         [tool.pypackage]\nname = \"c\"\n[tool.pypackage.dependencies]\ny = 2",
    );
    let config = Config::from_lines(&file, read_version, read_req).unwrap();
    assert_eq!(config.name, Some("c".to_string()));
    let names: Vec<&str> = config.dependencies.iter().map(|r| r.name.as_str()).collect();
    assert_eq!(names, vec!["x", "y"]);
}

#[test]
fn the_first_unreadable_text_is_handed_back() {
    let version = lines("[tool.pypackage]\nname = \"a\"\nversion = \"x.y\"\npy_version = \"z\"");
    let error = Config::from_lines(&version, read_version, read_req).unwrap_err();
    assert!(matches!(error, Entry::Version(t) if t == "x.y"));
    let python = lines("[tool.pypackage]\npy_version = \"z\"");
    let error = Config::from_lines(&python, read_version, read_req).unwrap_err();
    assert!(matches!(error, Entry::PyVersion(t) if t == "z"));
    let req = lines("[tool.pypackage.dependencies]\nx = 1\nbad");
    let error = Config::from_lines(&req, read_version, read_req).unwrap_err();
    assert!(matches!(error, Entry::Dependency(t) if t == "bad"));
}

fn sample() -> Config {
    let mut config = Config::default();
    config.name = Some("demo".to_string());
    config.py_version = Some(Version::new_short(3, 7));
    config.version = Some(Version::new(0, 1, 0));
    config.author = Some("me".to_string());
    config.dependencies.push(read_req("numpy = \"^1\"").unwrap());
    config.dependencies.push(read_req("scipy = \"*\"").unwrap());
    config
}

#[test]
fn a_new_file_is_written() {
    assert_eq!(
        sample().file_text(show_version, show_req),
        "[tool.pypackage]\nname = \"demo\"\nversion = \"3.7.0\"\n0.1.0\nme\n\n\n\
         [tool.pypackage.dependencies]\nnumpy = \"^1\"\nscipy = \"*\"\n"
    );
    assert_eq!(
        Config::default().file_text(show_version, show_req),
        "[tool.pypackage]\nname = \"\"\nversion = \"\"\n\n\n[tool.pypackage.dependencies]\n"
    );
}

#[test]
fn a_written_file_is_read_back() {
    let text = sample().file_text(show_version, show_req);
    assert_eq!(
        texts(&read_entries(&lines(&text))),
        vec![
            "name demo",
            "version 3.7.0",
            "dependency numpy = \"^1\"",
            "dependency scipy = \"*\"",
        ]
    );
    let empty = Config::default().file_text(show_version, show_req);
    assert_eq!(texts(&read_entries(&lines(&empty))), vec!["name "]);
}
