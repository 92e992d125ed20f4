//! The project file: reading its settings, and writing a new one.

use crate::lines::{join_lines, joined};
use crate::pattern::{
    bracket_pair_at, has_bracket_pair, is_plain_key, is_section_header, key_is_unique, key_value,
    no_open_bracket, no_value_without_sign, value_of_key,
};
use crate::text::{same_text, starts_with_char};
use crate::version::{is_version_text, version_answer, Req, ReqView, Version};
use vstd::prelude::*;
use vstd::string::StringExecFns;

verus! {

/// The settings of a project, as `pyproject.toml` gives them.
#[derive(Clone, Debug)]
pub struct Config {
    pub py_version: Option<Version>,
    pub dependencies: Vec<Req>,
    pub name: Option<String>,
    pub version: Option<Version>,
    pub author: Option<String>,
    pub author_email: Option<String>,
    pub description: Option<String>,
    pub classifiers: Vec<String>,
    pub keywords: Vec<String>,
    pub homepage: Option<String>,
    pub repo_url: Option<String>,
    pub package_url: Option<String>,
    pub readme_filename: Option<String>,
    pub license: Option<String>,
}

/// What a `Config` holds.
pub struct ConfigView {
    pub py_version: Option<Version>,
    pub dependencies: Seq<ReqView>,
    pub name: Option<Seq<char>>,
    pub version: Option<Version>,
    pub author: Option<Seq<char>>,
    pub author_email: Option<Seq<char>>,
    pub description: Option<Seq<char>>,
    pub classifiers: Seq<Seq<char>>,
    pub keywords: Seq<Seq<char>>,
    pub homepage: Option<Seq<char>>,
    pub repo_url: Option<Seq<char>>,
    pub package_url: Option<Seq<char>>,
    pub readme_filename: Option<Seq<char>>,
    pub license: Option<Seq<char>>,
}

impl DeepView for Config {
    type V = ConfigView;

    open spec fn deep_view(&self) -> ConfigView {
        ConfigView {
            py_version: self.py_version,
            dependencies: self.dependencies.deep_view(),
            name: self.name.deep_view(),
            version: self.version,
            author: self.author.deep_view(),
            author_email: self.author_email.deep_view(),
            description: self.description.deep_view(),
            classifiers: self.classifiers.deep_view(),
            keywords: self.keywords.deep_view(),
            homepage: self.homepage.deep_view(),
            repo_url: self.repo_url.deep_view(),
            package_url: self.package_url.deep_view(),
            readme_filename: self.readme_filename.deep_view(),
            license: self.license.deep_view(),
        }
    }
}

/// The settings of a project that has none.
pub open spec fn empty_config() -> ConfigView {
    ConfigView {
        py_version: None,
        dependencies: Seq::empty(),
        name: None,
        version: None,
        author: None,
        author_email: None,
        description: None,
        classifiers: Seq::empty(),
        keywords: Seq::empty(),
        homepage: None,
        repo_url: None,
        package_url: None,
        readme_filename: None,
        license: None,
    }
}

impl Default for Config {
    fn default() -> (config: Config)
        ensures
            config.deep_view() == empty_config(),
    {
        let config = Config {
            py_version: None,
            dependencies: Vec::new(),
            name: None,
            version: None,
            author: None,
            author_email: None,
            description: None,
            classifiers: Vec::new(),
            keywords: Vec::new(),
            homepage: None,
            repo_url: None,
            package_url: None,
            readme_filename: None,
            license: None,
        };
        assert(config.dependencies.deep_view() =~= Seq::empty());
        assert(config.classifiers.deep_view() =~= Seq::empty());
        assert(config.keywords.deep_view() =~= Seq::empty());
        config
    }
}

/// One setting of the project file, as it is written there.
#[derive(Debug)]
pub enum Entry {
    Name(String),
    Description(String),
    Version(String),
    PyVersion(String),
    Dependency(String),
}

/// What an `Entry` holds.
pub enum EntryView {
    Name(Seq<char>),
    Description(Seq<char>),
    Version(Seq<char>),
    PyVersion(Seq<char>),
    Dependency(Seq<char>),
}

impl DeepView for Entry {
    type V = EntryView;

    open spec fn deep_view(&self) -> EntryView {
        match self {
            Entry::Name(text) => EntryView::Name(text@),
            Entry::Description(text) => EntryView::Description(text@),
            Entry::Version(text) => EntryView::Version(text@),
            Entry::PyVersion(text) => EntryView::PyVersion(text@),
            Entry::Dependency(text) => EntryView::Dependency(text@),
        }
    }
}

impl Clone for Entry {
    fn clone(&self) -> (copy: Entry)
        ensures
            copy == *self,
    {
        match self {
            Entry::Name(text) => Entry::Name(text.clone()),
            Entry::Description(text) => Entry::Description(text.clone()),
            Entry::Version(text) => Entry::Version(text.clone()),
            Entry::PyVersion(text) => Entry::PyVersion(text.clone()),
            Entry::Dependency(text) => Entry::Dependency(text.clone()),
        }
    }
}

/// The table of the project file that a line belongs to.
#[derive(Copy, Clone, Debug, PartialEq, Eq, Structural)]
pub enum Place {
    Settings,
    Dependencies,
    Elsewhere,
}

/// Whether a line is skipped whole.
pub open spec fn is_comment(line: Seq<char>) -> bool {
    line.len() > 0 && line[0] == '#'
}

/// The header of the table that holds the settings.
pub open spec fn settings_header() -> Seq<char> {
    "[tool.pypackage]"@
}

/// The header of the table that holds the requirements.
pub open spec fn dependencies_header() -> Seq<char> {
    "[tool.pypackage.dependencies]"@
}

/// Whether a line opens a table.
pub open spec fn is_header(line: Seq<char>) -> bool {
    line == settings_header() || line == dependencies_header() || has_bracket_pair(line)
}

/// The table that the line after `line` belongs to.
pub open spec fn place_after(place: Place, line: Seq<char>) -> Place {
    if is_comment(line) {
        place
    } else if line == settings_header() {
        Place::Settings
    } else if line == dependencies_header() {
        Place::Dependencies
    } else if has_bracket_pair(line) {
        Place::Elsewhere
    } else {
        place
    }
}

/// A list of the one item there is, if there is one.
pub open spec fn listed<T>(item: Option<T>) -> Seq<T> {
    match item {
        Some(item) => seq![item],
        None => Seq::empty(),
    }
}

/// The name that a line of the settings gives.
pub open spec fn name_entry(line: Seq<char>) -> Option<EntryView> {
    match key_value("name"@, line) {
        Some(value) => Some(EntryView::Name(value)),
        None => None,
    }
}

/// The description that a line of the settings gives.
pub open spec fn description_entry(line: Seq<char>) -> Option<EntryView> {
    match key_value("description"@, line) {
        Some(value) => Some(EntryView::Description(value)),
        None => None,
    }
}

/// The version that a line of the settings gives; an empty one does not count.
pub open spec fn version_entry(line: Seq<char>) -> Option<EntryView> {
    match key_value("version"@, line) {
        Some(value) => if value.len() > 0 {
            Some(EntryView::Version(value))
        } else {
            None
        },
        None => None,
    }
}

/// The version of Python that a line of the settings gives; an empty one does not count.
pub open spec fn py_version_entry(line: Seq<char>) -> Option<EntryView> {
    match key_value("py_version"@, line) {
        Some(value) => if value.len() > 0 {
            Some(EntryView::PyVersion(value))
        } else {
            None
        },
        None => None,
    }
}

/// What a line that stands in `place` contributes.
pub open spec fn line_entries(place: Place, line: Seq<char>) -> Seq<EntryView> {
    if is_comment(line) || is_header(line) {
        Seq::empty()
    } else {
        match place {
            Place::Settings => listed(name_entry(line)) + listed(description_entry(line)) + listed(
                version_entry(line),
            ) + listed(py_version_entry(line)),
            Place::Dependencies => if line.len() > 0 {
                seq![EntryView::Dependency(line)]
            } else {
                Seq::empty()
            },
            Place::Elsewhere => Seq::empty(),
        }
    }
}

/// The table that the line after `lines` belongs to.
pub open spec fn place_of(lines: Seq<Seq<char>>) -> Place
    decreases lines.len(),
{
    if lines.len() == 0 {
        Place::Elsewhere
    } else {
        place_after(place_of(lines.drop_last()), lines.last())
    }
}

/// The settings that the lines of a project file hold, in order.
pub open spec fn entries_of(lines: Seq<Seq<char>>) -> Seq<EntryView>
    decreases lines.len(),
{
    if lines.len() == 0 {
        Seq::empty()
    } else {
        entries_of(lines.drop_last()) + line_entries(place_of(lines.drop_last()), lines.last())
    }
}

/// The keys of the settings are plain, and differ in length.
pub(crate) proof fn setting_keys()
    ensures
        is_plain_key("name"@) && "name"@.len() == 4,
        is_plain_key("description"@) && "description"@.len() == 11,
        is_plain_key("version"@) && "version"@.len() == 7,
        is_plain_key("py_version"@) && "py_version"@.len() == 10,
{
    reveal_strlit("name");
    reveal_strlit("description");
    reveal_strlit("version");
    reveal_strlit("py_version");
}

/// Adds `entry` to `entries`.
fn add_entry(entries: &mut Vec<Entry>, entry: Entry)
    ensures
        final(entries).deep_view() == old(entries).deep_view().push(entry.deep_view()),
{
    entries.push(entry);
    assert(entries.deep_view() =~= old(entries).deep_view().push(entry.deep_view()));
}

/// Adds what a line of the settings contributes to `entries`.
fn read_setting(line: &str, entries: &mut Vec<Entry>)
    ensures
        final(entries).deep_view() == old(entries).deep_view() + listed(name_entry(line@)) + listed(
            description_entry(line@),
        ) + listed(version_entry(line@)) + listed(py_version_entry(line@)),
{
    proof {
        setting_keys();
    }
    if let Some(value) = value_of_key("name", line) {
        add_entry(entries, Entry::Name(value));
    }
    assert(entries.deep_view() =~= old(entries).deep_view() + listed(name_entry(line@)));
    let ghost named = entries.deep_view();
    if let Some(value) = value_of_key("description", line) {
        add_entry(entries, Entry::Description(value));
    }
    assert(entries.deep_view() =~= named + listed(description_entry(line@)));
    let ghost described = entries.deep_view();
    if let Some(value) = value_of_key("version", line) {
        if !value.as_str().is_empty() {
            add_entry(entries, Entry::Version(value));
        }
    }
    assert(entries.deep_view() =~= described + listed(version_entry(line@)));
    let ghost versioned = entries.deep_view();
    if let Some(value) = value_of_key("py_version", line) {
        if !value.as_str().is_empty() {
            add_entry(entries, Entry::PyVersion(value));
        }
    }
    assert(entries.deep_view() =~= versioned + listed(py_version_entry(line@)));
}

/// Adds what a line that stands in `place` contributes to `entries`, and says which table
/// the next line belongs to.
fn read_line(place: Place, line: &str, entries: &mut Vec<Entry>) -> (next: Place)
    ensures
        next == place_after(place, line@),
        final(entries).deep_view() == old(entries).deep_view() + line_entries(place, line@),
{
    if starts_with_char(line, '#') {
        assert(entries.deep_view() =~= old(entries).deep_view() + line_entries(place, line@));
        return place;
    }
    if same_text(line, "[tool.pypackage]") {
        assert(entries.deep_view() =~= old(entries).deep_view() + line_entries(place, line@));
        return Place::Settings;
    }
    if same_text(line, "[tool.pypackage.dependencies]") {
        assert(entries.deep_view() =~= old(entries).deep_view() + line_entries(place, line@));
        return Place::Dependencies;
    }
    if is_section_header(line) {
        assert(entries.deep_view() =~= old(entries).deep_view() + line_entries(place, line@));
        return Place::Elsewhere;
    }
    match place {
        Place::Settings => {
            read_setting(line, entries);
        },
        Place::Dependencies => {
            if !line.is_empty() {
                add_entry(entries, Entry::Dependency(line.to_owned()));
            }
        },
        Place::Elsewhere => {},
    }
    assert(entries.deep_view() =~= old(entries).deep_view() + line_entries(place, line@));
    place
}

/// The settings that the lines of a project file hold, in order.
pub fn read_entries(lines: &Vec<String>) -> (entries: Vec<Entry>)
    ensures
        entries.deep_view() == entries_of(lines.deep_view()),
{
    let mut entries: Vec<Entry> = Vec::new();
    let mut place = Place::Elsewhere;
    let ghost all = lines.deep_view();
    assert(all.take(0) =~= Seq::empty());
    assert(entries.deep_view() =~= Seq::empty());
    for i in 0..lines.len()
        invariant
            all == lines.deep_view(),
            place == place_of(all.take(i as int)),
            entries.deep_view() == entries_of(all.take(i as int)),
    {
        place = read_line(place, lines[i].as_str(), &mut entries);
        assert(all.take(i + 1).drop_last() =~= all.take(i as int));
        assert(all.take(i + 1).last() == lines@[i as int]@);
    }
    assert(all.take(lines@.len() as int) =~= all);
    entries
}

/// One setting of the project file, with versions and requirements understood.
pub enum SettingView {
    Name(Seq<char>),
    Description(Seq<char>),
    Version(Version),
    PyVersion(Version),
    Dependency(ReqView),
}

/// Whether `read` can answer `answer` to `text`.
pub open spec fn req_answer<F: Fn(&str) -> Option<Req>>(
    read: F,
    text: Seq<char>,
    answer: Option<ReqView>,
) -> bool {
    exists|t: &str, req: Option<Req>|
        t@ == text && req.deep_view() == answer && #[trigger] call_ensures(read, (t,), req)
}

/// Whether `setting` is what `entry` says, as `version` and `req` read versions and
/// requirements.
pub open spec fn means<V: Fn(&str) -> Option<Version>, R: Fn(&str) -> Option<Req>>(
    version: V,
    req: R,
    entry: EntryView,
    setting: SettingView,
) -> bool {
    match (entry, setting) {
        (EntryView::Name(text), SettingView::Name(name)) => name == text,
        (EntryView::Description(text), SettingView::Description(about)) => about == text,
        (EntryView::Version(text), SettingView::Version(v)) => version_answer(
            version,
            text,
            Some(v),
        ),
        (EntryView::PyVersion(text), SettingView::PyVersion(v)) => version_answer(
            version,
            text,
            Some(v),
        ),
        (EntryView::Dependency(text), SettingView::Dependency(r)) => req_answer(
            req,
            text,
            Some(r),
        ),
        _ => false,
    }
}

/// Whether `version` or `req` refuses to read what `entry` holds.
pub open spec fn is_refused<V: Fn(&str) -> Option<Version>, R: Fn(&str) -> Option<Req>>(
    version: V,
    req: R,
    entry: EntryView,
) -> bool {
    match entry {
        EntryView::Name(_) => false,
        EntryView::Description(_) => false,
        EntryView::Version(text) => version_answer(version, text, None),
        EntryView::PyVersion(text) => version_answer(version, text, None),
        EntryView::Dependency(text) => req_answer(req, text, None),
    }
}

/// Whether `settings` are what the first of `entries` say, one for one.
pub open spec fn are_settings<V: Fn(&str) -> Option<Version>, R: Fn(&str) -> Option<Req>>(
    version: V,
    req: R,
    entries: Seq<EntryView>,
    settings: Seq<SettingView>,
) -> bool {
    &&& settings.len() <= entries.len()
    &&& forall|i: int|
        0 <= i < settings.len() ==> means(version, req, entries[i], #[trigger] settings[i])
}

/// `config` after `setting`: a requirement is added at the end, anything else replaces
/// what was there.
pub open spec fn with_setting(config: ConfigView, setting: SettingView) -> ConfigView {
    match setting {
        SettingView::Name(name) => ConfigView { name: Some(name), ..config },
        SettingView::Description(about) => ConfigView { description: Some(about), ..config },
        SettingView::Version(version) => ConfigView { version: Some(version), ..config },
        SettingView::PyVersion(version) => ConfigView { py_version: Some(version), ..config },
        SettingView::Dependency(req) => ConfigView {
            dependencies: config.dependencies.push(req),
            ..config
        },
    }
}

/// The project that `settings` describe.
pub open spec fn config_of(settings: Seq<SettingView>) -> ConfigView
    decreases settings.len(),
{
    if settings.len() == 0 {
        empty_config()
    } else {
        with_setting(config_of(settings.drop_last()), settings.last())
    }
}

impl Config {
    /// Reads the lines of a project file. `read_version` and `read_req` read the text of
    /// a version and of a requirement; the first text that one of them refuses is handed
    /// back as an error.
    pub fn from_lines<V: Fn(&str) -> Option<Version>, R: Fn(&str) -> Option<Req>>(
        lines: &Vec<String>,
        read_version: V,
        read_req: R,
    ) -> (config: Result<Config, Entry>)
        requires
            forall|t: &str| call_requires(read_version, (t,)),
            forall|t: &str| call_requires(read_req, (t,)),
        ensures
            match config {
                Ok(config) => exists|settings: Seq<SettingView>|
                    {
                        &&& settings.len() == entries_of(lines.deep_view()).len()
                        &&& #[trigger] are_settings(
                            read_version,
                            read_req,
                            entries_of(lines.deep_view()),
                            settings,
                        )
                        &&& config.deep_view() == config_of(settings)
                    },
                Err(entry) => exists|settings: Seq<SettingView>|
                    {
                        &&& settings.len() < entries_of(lines.deep_view()).len()
                        &&& #[trigger] are_settings(
                            read_version,
                            read_req,
                            entries_of(lines.deep_view()),
                            settings,
                        )
                        &&& entry.deep_view() == entries_of(lines.deep_view())[settings.len() as int]
                        &&& is_refused(read_version, read_req, entry.deep_view())
                    },
            },
    {
        let entries = read_entries(lines);
        let ghost texts = entries.deep_view();
        let ghost mut settings: Seq<SettingView> = Seq::empty();
        let mut config = Config::default();
        for i in 0..entries.len()
            invariant
                forall|t: &str| call_requires(read_version, (t,)),
                forall|t: &str| call_requires(read_req, (t,)),
                texts == entries.deep_view(),
                texts == entries_of(lines.deep_view()),
                settings.len() == i,
                are_settings(read_version, read_req, texts, settings),
                config.deep_view() == config_of(settings),
        {
            let ghost before = settings;
            match &entries[i] {
                Entry::Name(text) => {
                    config.name = Some(text.clone());
                    proof {
                        settings = settings.push(SettingView::Name(text@));
                    }
                },
                Entry::Description(text) => {
                    config.description = Some(text.clone());
                    proof {
                        settings = settings.push(SettingView::Description(text@));
                    }
                },
                Entry::Version(text) => match read_version(text.as_str()) {
                    Some(version) => {
                        config.version = Some(version);
                        proof {
                            settings = settings.push(SettingView::Version(version));
                        }
                    },
                    None => {
                        return Err(entries[i].clone());
                    },
                },
                Entry::PyVersion(text) => match read_version(text.as_str()) {
                    Some(version) => {
                        config.py_version = Some(version);
                        proof {
                            settings = settings.push(SettingView::PyVersion(version));
                        }
                    },
                    None => {
                        return Err(entries[i].clone());
                    },
                },
                Entry::Dependency(text) => match read_req(text.as_str()) {
                    Some(req) => {
                        let ghost known = config.dependencies.deep_view();
                        proof {
                            settings = settings.push(SettingView::Dependency(req.deep_view()));
                        }
                        config.dependencies.push(req);
                        assert(config.dependencies.deep_view() =~= known.push(req.deep_view()));
                    },
                    None => {
                        assert(None::<Req>.deep_view() == None::<ReqView>);
                        return Err(entries[i].clone());
                    },
                },
            }
            assert(settings.drop_last() =~= before);
        }
        Ok(config)
    }

    /// The text of a new project file. `show_version` and `show_req` write out a version
    /// and a requirement.
    pub fn file_text<V: Fn(&Version) -> String, R: Fn(&Req) -> String>(
        &self,
        show_version: V,
        show_req: R,
    ) -> (text: String)
        requires
            forall|v: &Version| call_requires(show_version, (v,)),
            forall|r: &Req| call_requires(show_req, (r,)),
        ensures
            exists|py: Option<Seq<char>>, version: Option<Seq<char>>, reqs: Seq<Seq<char>>|
                {
                    &&& is_shown_version(show_version, self.py_version, py)
                    &&& is_shown_version(show_version, self.version, version)
                    &&& are_shown_reqs(show_req, self.dependencies@, reqs)
                    &&& text@ == joined(
                        #[trigger] file_lines(
                            self.name.deep_view(),
                            py,
                            version,
                            self.author.deep_view(),
                            reqs,
                        ),
                    )
                },
    {
        let mut lines: Vec<String> = Vec::new();
        add_line(&mut lines, "[tool.pypackage]".to_owned());
        let name = match &self.name {
            Some(name) => quoted("name = \"", name.as_str()),
            None => quoted("name = \"", ""),
        };
        add_line(&mut lines, name);
        let ghost mut py: Option<Seq<char>> = None;
        let py_line = match self.py_version {
            Some(v) => {
                let shown = show_version(&v);
                proof {
                    py = Some(shown@);
                }
                quoted("version = \"", shown.as_str())
            },
            None => quoted("version = \"", ""),
        };
        add_line(&mut lines, py_line);
        let ghost mut version: Option<Seq<char>> = None;
        if let Some(v) = self.version {
            let shown = show_version(&v);
            proof {
                version = Some(shown@);
            }
            add_line(&mut lines, shown);
        }
        if let Some(author) = &self.author {
            add_line(&mut lines, author.clone());
        }
        add_line(&mut lines, String::new());
        add_line(&mut lines, String::new());
        add_line(&mut lines, "[tool.pypackage.dependencies]".to_owned());
        let ghost head = lines.deep_view();
        let ghost mut reqs: Seq<Seq<char>> = Seq::empty();
        for i in 0..self.dependencies.len()
            invariant
                forall|r: &Req| call_requires(show_req, (r,)),
                reqs.len() == i,
                forall|k: int|
                    0 <= k < i ==> is_shown_req(
                        show_req,
                        self.dependencies@[k],
                        #[trigger] reqs[k],
                    ),
                lines.deep_view() == head + reqs,
        {
            let shown = show_req(&self.dependencies[i]);
            proof {
                reqs = reqs.push(shown@);
            }
            add_line(&mut lines, shown);
            assert(lines.deep_view() =~= head + reqs);
        }
        proof {
            reveal_strlit("");
            assert(""@ =~= Seq::empty());
            assert(lines.deep_view() =~= file_lines(
                self.name.deep_view(),
                py,
                version,
                self.author.deep_view(),
                reqs,
            ));
        }
        join_lines(&lines)
    }
}

/// Whether `show` can write `version` out as `text`.
pub open spec fn is_shown_version<F: Fn(&Version) -> String>(
    show: F,
    version: Option<Version>,
    text: Option<Seq<char>>,
) -> bool {
    match (version, text) {
        (Some(v), Some(t)) => is_version_text(show, v, t),
        (None, None) => true,
        _ => false,
    }
}

/// Whether `show` can write `req` out as `text`.
pub open spec fn is_shown_req<F: Fn(&Req) -> String>(show: F, req: Req, text: Seq<char>) -> bool {
    exists|shown: String| shown@ == text && #[trigger] call_ensures(show, (&req,), shown)
}

/// Whether `show` can write `reqs` out as `texts`, one for one.
pub open spec fn are_shown_reqs<F: Fn(&Req) -> String>(
    show: F,
    reqs: Seq<Req>,
    texts: Seq<Seq<char>>,
) -> bool {
    &&& texts.len() == reqs.len()
    &&& forall|i: int| 0 <= i < reqs.len() ==> is_shown_req(show, reqs[i], #[trigger] texts[i])
}

/// What an optional text holds; nothing, where there is none.
pub open spec fn or_empty(text: Option<Seq<char>>) -> Seq<char> {
    match text {
        Some(text) => text,
        None => Seq::empty(),
    }
}

/// The lines of a new project file. The version of Python stands under the key `version`;
/// the version of the project and the author stand by themselves.
pub open spec fn file_lines(
    name: Option<Seq<char>>,
    py_version: Option<Seq<char>>,
    version: Option<Seq<char>>,
    author: Option<Seq<char>>,
    reqs: Seq<Seq<char>>,
) -> Seq<Seq<char>> {
    seq![
        settings_header(),
        "name = \""@ + or_empty(name) + "\""@,
        "version = \""@ + or_empty(py_version) + "\""@,
    ] + listed(version) + listed(author) + seq![
        Seq::empty(),
        Seq::empty(),
        dependencies_header(),
    ] + reqs
}

/// Adds `line` to `lines`.
pub(crate) fn add_line(lines: &mut Vec<String>, line: String)
    ensures
        final(lines).deep_view() == old(lines).deep_view().push(line@),
{
    lines.push(line);
    assert(lines.deep_view() =~= old(lines).deep_view().push(line@));
}

/// `start`, then `value`, then a quote.
pub(crate) fn quoted(start: &str, value: &str) -> (line: String)
    ensures
        line@ == start@ + value@ + "\""@,
{
    let mut line = start.to_owned();
    line.append(value);
    line.append("\"");
    line
}

/// Whether a line opens no table and contributes nothing, wherever it stands.
pub open spec fn is_silent(line: Seq<char>) -> bool {
    forall|place: Place|
        #![trigger place_after(place, line)]
        place_after(place, line) == place && line_entries(place, line) == Seq::<EntryView>::empty()
}

/// Silent lines change nothing.
proof fn silent_lines_change_nothing(
    before: Seq<Seq<char>>,
    line: Seq<char>,
    after: Seq<Seq<char>>,
)
    requires
        is_silent(line),
    ensures
        entries_of(before.push(line) + after) == entries_of(before + after),
        place_of(before.push(line) + after) == place_of(before + after),
    decreases after.len(),
{
    let with = before.push(line) + after;
    let without = before + after;
    if after.len() == 0 {
        assert(with =~= before.push(line));
        assert(with.drop_last() =~= before);
        assert(without =~= before);
        assert(place_after(place_of(before), line) == place_of(before));
        assert(entries_of(with) =~= entries_of(before));
    } else {
        silent_lines_change_nothing(before, line, after.drop_last());
        assert(with.drop_last() =~= before.push(line) + after.drop_last());
        assert(without.drop_last() =~= before + after.drop_last());
    }
}

/// Comments change nothing, wherever they stand.
pub proof fn comments_change_nothing(
    before: Seq<Seq<char>>,
    comment: Seq<char>,
    after: Seq<Seq<char>>,
)
    requires
        is_comment(comment),
    ensures
        entries_of(before.push(comment) + after) == entries_of(before + after),
        place_of(before.push(comment) + after) == place_of(before + after),
{
    silent_lines_change_nothing(before, comment, after);
}

/// A line without an equals sign or an opening bracket opens no table, and gives no setting.
pub(crate) proof fn plain_line_gives_nothing(line: Seq<char>)
    requires
        !line.contains('='),
        !line.contains('['),
    ensures
        !is_header(line),
        forall|place: Place| #[trigger] place_after(place, line) == place,
        line_entries(Place::Settings, line) == Seq::<EntryView>::empty(),
{
    reveal_strlit("[tool.pypackage]");
    reveal_strlit("[tool.pypackage.dependencies]");
    assert(settings_header()[0] == '[');
    assert(dependencies_header()[0] == '[');
    no_open_bracket(line);
    no_value_without_sign(line, "name"@);
    no_value_without_sign(line, "description"@);
    no_value_without_sign(line, "version"@);
    no_value_without_sign(line, "py_version"@);
    assert(line_entries(Place::Settings, line) =~= Seq::empty());
}

/// Empty lines are silent.
pub(crate) proof fn empty_line_is_silent(line: Seq<char>)
    requires
        line.len() == 0,
    ensures
        is_silent(line),
{
    plain_line_gives_nothing(line);
}

/// Empty lines change nothing, wherever they stand.
pub proof fn empty_lines_change_nothing(before: Seq<Seq<char>>, after: Seq<Seq<char>>)
    ensures
        entries_of(before.push(Seq::empty()) + after) == entries_of(before + after),
        place_of(before.push(Seq::empty()) + after) == place_of(before + after),
{
    empty_line_is_silent(Seq::empty());
    silent_lines_change_nothing(before, Seq::empty(), after);
}

/// The first of two optional values that is there.
pub open spec fn or_else<T>(first: Option<T>, second: Option<T>) -> Option<T> {
    match first {
        Some(value) => Some(value),
        None => second,
    }
}

/// Later settings override earlier ones, but for the requirements, which add up in order.
pub proof fn later_settings_override(earlier: Seq<SettingView>, later: Seq<SettingView>)
    ensures
        ({
            let (a, b) = (config_of(earlier), config_of(later));
            config_of(earlier + later) == ConfigView {
                name: or_else(b.name, a.name),
                description: or_else(b.description, a.description),
                version: or_else(b.version, a.version),
                py_version: or_else(b.py_version, a.py_version),
                dependencies: a.dependencies + b.dependencies,
                ..empty_config()
            }
        }),
    decreases later.len(),
{
    if later.len() == 0 {
        assert(earlier + later =~= earlier);
        only_settings_are_read(earlier);
        assert(config_of(earlier).dependencies + Seq::<ReqView>::empty() =~= config_of(
            earlier,
        ).dependencies);
    } else {
        let a = config_of(earlier);
        let b = config_of(later.drop_last());
        later_settings_override(earlier, later.drop_last());
        assert((earlier + later).drop_last() =~= earlier + later.drop_last());
        if let SettingView::Dependency(req) = later.last() {
            assert((a.dependencies + b.dependencies).push(req) =~= a.dependencies
                + b.dependencies.push(req));
        }
    }
}

/// Only the name, the description, the two versions and the requirements are ever read.
pub proof fn only_settings_are_read(settings: Seq<SettingView>)
    ensures
        ({
            let config = config_of(settings);
            config == ConfigView {
                name: config.name,
                description: config.description,
                version: config.version,
                py_version: config.py_version,
                dependencies: config.dependencies,
                ..empty_config()
            }
        }),
    decreases settings.len(),
{
    if settings.len() > 0 {
        only_settings_are_read(settings.drop_last());
    }
}

/// Entries that are seen alike are alike: of the same kind and with the same text.
pub proof fn entries_are_seen_whole(a: Entry, b: Entry)
    requires
        a.deep_view() == b.deep_view(),
    ensures
        match (a, b) {
            (Entry::Name(s), Entry::Name(t)) => s@ == t@,
            (Entry::Description(s), Entry::Description(t)) => s@ == t@,
            (Entry::Version(s), Entry::Version(t)) => s@ == t@,
            (Entry::PyVersion(s), Entry::PyVersion(t)) => s@ == t@,
            (Entry::Dependency(s), Entry::Dependency(t)) => s@ == t@,
            _ => false,
        },
{
}

/// Whether a line opens a table: it holds a pair of brackets, and is no comment.
pub open spec fn opens_table(line: Seq<char>) -> bool {
    has_bracket_pair(line) && !(line.len() > 0 && line[0] == '#')
}

/// The headers hold a pair of brackets.
proof fn headers_hold_a_pair()
    ensures
        has_bracket_pair(settings_header()),
        has_bracket_pair(dependencies_header()),
        settings_header().len() > 0 && settings_header()[0] != '#',
        dependencies_header().len() > 0 && dependencies_header()[0] != '#',
        settings_header() != dependencies_header(),
{
    reveal_strlit("[tool.pypackage]");
    reveal_strlit("[tool.pypackage.dependencies]");
    assert(bracket_pair_at(settings_header(), 0, 15));
    assert(bracket_pair_at(dependencies_header(), 0, 28));
    assert(settings_header().len() != dependencies_header().len());
}

/// The table that lines belong to once its header has come and no other.
proof fn table_lasts(lines: Seq<Seq<char>>, at: int)
    requires
        0 <= at < lines.len(),
        opens_table(lines[at]),
        forall|i: int| at < i < lines.len() ==> !opens_table(#[trigger] lines[i]),
    ensures
        place_of(lines) == (if lines[at] == settings_header() {
            Place::Settings
        } else if lines[at] == dependencies_header() {
            Place::Dependencies
        } else {
            Place::Elsewhere
        }),
    decreases lines.len(),
{
    headers_hold_a_pair();
    if at < lines.len() - 1 {
        assert(!opens_table(lines[lines.len() - 1]));
        assert forall|i: int| at < i < lines.drop_last().len() implies !opens_table(
            #[trigger] lines.drop_last()[i],
        ) by {
            assert(!opens_table(lines[i]));
        }
        table_lasts(lines.drop_last(), at);
    }
}

/// Before a table is opened nothing is read.
proof fn nothing_is_read_outside_tables(lines: Seq<Seq<char>>)
    requires
        forall|i: int| 0 <= i < lines.len() ==> !opens_table(#[trigger] lines[i]),
    ensures
        place_of(lines) == Place::Elsewhere,
        entries_of(lines).len() == 0,
    decreases lines.len(),
{
    headers_hold_a_pair();
    if lines.len() > 0 {
        assert(!opens_table(lines[lines.len() - 1]));
        nothing_is_read_outside_tables(lines.drop_last());
    }
}

/// Whether `after` holds what `before` holds, and one entry more behind it.
pub open spec fn is_one_more(before: Seq<EntryView>, after: Seq<EntryView>) -> bool {
    after.len() == before.len() + 1 && before == after.take(before.len() as int)
}

/// What a line adds depends on the table that was opened last before it. Comments and lines
/// that open a table add nothing, and neither do lines outside the two tables. Among the
/// requirements a line that is not empty adds itself. Among the settings a line adds the value
/// that it gives to one of the four keys; an empty version does not count. What was read
/// before stays, in order.
pub proof fn lines_are_read_by_their_table(
    lines: &Vec<String>,
    more: &Vec<String>,
    last: &str,
    at: int,
    values: (Option<String>, Option<String>, Option<String>, Option<String>),
    before: Vec<Entry>,
    after: Vec<Entry>,
)
    requires
        call_ensures(read_entries, (lines,), before),
        call_ensures(read_entries, (more,), after),
        call_ensures(value_of_key, ("name", last), values.0),
        call_ensures(value_of_key, ("description", last), values.1),
        call_ensures(value_of_key, ("version", last), values.2),
        call_ensures(value_of_key, ("py_version", last), values.3),
        more@.len() == lines@.len() + 1,
        forall|i: int| 0 <= i < lines@.len() ==> (#[trigger] more@[i])@ == lines@[i]@,
        more@[lines@.len() as int]@ == last@,
        0 <= at < lines@.len(),
        opens_table(lines@[at]@),
        forall|i: int| at < i < lines@.len() ==> !opens_table((#[trigger] lines@[i])@),
    ensures
        ({
            let table = lines@[at]@;
            let (a, b) = (before.deep_view(), after.deep_view());
            let new = after@[before@.len() as int];
            if opens_table(last@) || last@.len() > 0 && last@[0] == '#' {
                b == a
            } else if table == "[tool.pypackage.dependencies]"@ {
                if last@.len() == 0 {
                    b == a
                } else {
                    is_one_more(a, b) && (new matches Entry::Dependency(text) && text@ == last@)
                }
            } else if table == "[tool.pypackage]"@ {
                match values {
                    (Some(v), _, _, _) => is_one_more(a, b) && (new matches Entry::Name(text)
                        && text@ == v@),
                    (None, Some(v), _, _) => is_one_more(a, b) && (new matches Entry::Description(
                        text,
                    ) && text@ == v@),
                    (None, None, Some(v), _) => if v@.len() == 0 {
                        b == a
                    } else {
                        is_one_more(a, b) && (new matches Entry::Version(text) && text@ == v@)
                    },
                    (None, None, None, Some(v)) => if v@.len() == 0 {
                        b == a
                    } else {
                        is_one_more(a, b) && (new matches Entry::PyVersion(text) && text@ == v@)
                    },
                    _ => b == a,
                }
            } else {
                b == a
            }
        }),
{
    let all = lines.deep_view();
    let longer = more.deep_view();
    assert forall|i: int| 0 <= i < longer.len() implies longer[i] == all.push(last@)[i] by {
        assert(longer[i] == more@[i]@);
    }
    assert(longer =~= all.push(last@));
    assert(longer.drop_last() =~= all);
    assert forall|i: int| at < i < all.len() implies !opens_table(#[trigger] all[i]) by {
        assert(all[i] == lines@[i]@);
    }
    table_lasts(all, at);
    headers_hold_a_pair();
    setting_keys();
    let added = line_entries(place_of(all), last@);
    assert(after.deep_view() == before.deep_view() + added);
    if key_value("name"@, last@) is Some {
        if key_value("description"@, last@) is Some {
            key_is_unique(last@, "name"@, "description"@);
        }
        if key_value("version"@, last@) is Some {
            key_is_unique(last@, "name"@, "version"@);
        }
        if key_value("py_version"@, last@) is Some {
            key_is_unique(last@, "name"@, "py_version"@);
        }
    }
    if key_value("description"@, last@) is Some {
        if key_value("version"@, last@) is Some {
            key_is_unique(last@, "description"@, "version"@);
        }
        if key_value("py_version"@, last@) is Some {
            key_is_unique(last@, "description"@, "py_version"@);
        }
    }
    if key_value("version"@, last@) is Some && key_value("py_version"@, last@) is Some {
        key_is_unique(last@, "version"@, "py_version"@);
    }
    if added.len() == 0 {
        assert(after.deep_view() =~= before.deep_view());
    } else {
        let n = before@.len() as int;
        assert(added.len() == 1);
        assert(before.deep_view().len() == n);
        assert(after.deep_view().len() == after@.len());
        assert(before.deep_view() =~= after.deep_view().take(n));
        assert(after.deep_view()[n] == added[0]);
        assert(after.deep_view()[n] == after@[n].deep_view());
    }
}

/// Before the first table is opened nothing is read.
pub proof fn nothing_is_read_before_a_table(lines: &Vec<String>, entries: Vec<Entry>)
    requires
        call_ensures(read_entries, (lines,), entries),
        forall|i: int| 0 <= i < lines@.len() ==> !opens_table((#[trigger] lines@[i])@),
    ensures
        entries@.len() == 0,
{
    let all = lines.deep_view();
    assert forall|i: int| 0 <= i < all.len() implies !opens_table(#[trigger] all[i]) by {
        assert(all[i] == lines@[i]@);
    }
    nothing_is_read_outside_tables(all);
    assert(entries.deep_view().len() == 0);
}

/// The last setting of its kind is the one that a project has.
proof fn last_setting_stays(settings: Seq<SettingView>, i: int)
    requires
        0 <= i < settings.len(),
    ensures
        ({
            let config = config_of(settings);
            &&& settings[i] is Name && (forall|k: int|
                i < k < settings.len() ==> !(#[trigger] settings[k] is Name)) ==> config.name
                == Some(settings[i]->Name_0)
            &&& settings[i] is Description && (forall|k: int|
                i < k < settings.len() ==> !(#[trigger] settings[k] is Description))
                ==> config.description == Some(settings[i]->Description_0)
            &&& settings[i] is Version && (forall|k: int|
                i < k < settings.len() ==> !(#[trigger] settings[k] is Version)) ==> config.version
                == Some(settings[i]->Version_0)
            &&& settings[i] is PyVersion && (forall|k: int|
                i < k < settings.len() ==> !(#[trigger] settings[k] is PyVersion))
                ==> config.py_version == Some(settings[i]->PyVersion_0)
        }),
    decreases settings.len(),
{
    let rest = settings.drop_last();
    if i < rest.len() {
        last_setting_stays(rest, i);
        assert(forall|k: int| i < k < rest.len() ==> #[trigger] rest[k] == settings[k]);
        assert(settings[settings.len() - 1] == settings.last());
    }
}

/// A project has nothing of a kind of which there is no setting.
proof fn missing_settings_stay_missing(settings: Seq<SettingView>)
    ensures
        ({
            let config = config_of(settings);
            &&& (forall|k: int| 0 <= k < settings.len() ==> !(#[trigger] settings[k] is Name))
                ==> config.name is None
            &&& (forall|k: int|
                0 <= k < settings.len() ==> !(#[trigger] settings[k] is Description))
                ==> config.description is None
            &&& (forall|k: int| 0 <= k < settings.len() ==> !(#[trigger] settings[k] is Version))
                ==> config.version is None
            &&& (forall|k: int| 0 <= k < settings.len() ==> !(#[trigger] settings[k] is PyVersion))
                ==> config.py_version is None
        }),
    decreases settings.len(),
{
    if settings.len() > 0 {
        let rest = settings.drop_last();
        missing_settings_stay_missing(rest);
        assert(forall|k: int| 0 <= k < rest.len() ==> #[trigger] rest[k] == settings[k]);
        assert(settings[settings.len() - 1] == settings.last());
    }
}

/// What the entries of a project file mean, where reading it succeeds.
proof fn settings_of<V: Fn(&str) -> Option<Version>, R: Fn(&str) -> Option<Req>>(
    lines: &Vec<String>,
    read_version: V,
    read_req: R,
    entries: Vec<Entry>,
    config: Config,
) -> (settings: Seq<SettingView>)
    requires
        call_ensures(read_entries, (lines,), entries),
        call_ensures(Config::from_lines::<V, R>, (lines, read_version, read_req), Ok(config)),
    ensures
        settings.len() == entries@.len(),
        config.deep_view() == config_of(settings),
        forall|i: int|
            0 <= i < settings.len() ==> means(
                read_version,
                read_req,
                entries@[i].deep_view(),
                #[trigger] settings[i],
            ),
{
    let all = entries_of(lines.deep_view());
    let settings = choose|settings: Seq<SettingView>|
        {
            &&& settings.len() == all.len()
            &&& #[trigger] are_settings(read_version, read_req, all, settings)
            &&& config.deep_view() == config_of(settings)
        };
    assert(entries.deep_view().len() == entries@.len());
    assert forall|i: int| 0 <= i < settings.len() implies means(
        read_version,
        read_req,
        entries@[i].deep_view(),
        #[trigger] settings[i],
    ) by {
        assert(entries.deep_view()[i] == entries@[i].deep_view());
    }
    settings
}

/// The last entry of its kind counts, with the text that it has: as the name or the
/// description it is taken as it is, and as a version or as the version of Python it is what
/// `read_version` reads it as. What is written in other entries plays no part.
pub proof fn last_entry_counts<V: Fn(&str) -> Option<Version>, R: Fn(&str) -> Option<Req>>(
    lines: &Vec<String>,
    read_version: V,
    read_req: R,
    entries: Vec<Entry>,
    config: Config,
    i: int,
)
    requires
        call_ensures(read_entries, (lines,), entries),
        call_ensures(Config::from_lines::<V, R>, (lines, read_version, read_req), Ok(config)),
        0 <= i < entries@.len(),
    ensures
        entries@[i] is Name && (forall|k: int|
            i < k < entries@.len() ==> !(#[trigger] entries@[k] is Name)) ==> config.name is Some
            && config.name->0@ == entries@[i]->Name_0@,
        entries@[i] is Description && (forall|k: int|
            i < k < entries@.len() ==> !(#[trigger] entries@[k] is Description))
            ==> config.description is Some && config.description->0@ == entries@[i]->Description_0@,
        entries@[i] is Version && (forall|k: int|
            i < k < entries@.len() ==> !(#[trigger] entries@[k] is Version)) ==> config.version
            is Some && exists|t: &str|
            t@ == entries@[i]->Version_0@ && #[trigger] call_ensures(read_version, (t,), config.version),
        entries@[i] is PyVersion && (forall|k: int|
            i < k < entries@.len() ==> !(#[trigger] entries@[k] is PyVersion))
            ==> config.py_version is Some && exists|t: &str|
            t@ == entries@[i]->PyVersion_0@ && #[trigger] call_ensures(
                read_version,
                (t,),
                config.py_version,
            ),
{
    let settings = settings_of(lines, read_version, read_req, entries, config);
    assert(means(read_version, read_req, entries@[i].deep_view(), settings[i]));
    assert forall|k: int| 0 <= k < settings.len() implies (#[trigger] settings[k] is Name
        <==> entries@[k] is Name) && (settings[k] is Description <==> entries@[k] is Description)
        && (settings[k] is Version <==> entries@[k] is Version) && (settings[k] is PyVersion
        <==> entries@[k] is PyVersion) by {
        assert(means(read_version, read_req, entries@[k].deep_view(), settings[k]));
    }
    last_setting_stays(settings, i);
    assert(config.deep_view().name == config.name.deep_view());
    assert(config.deep_view().description == config.description.deep_view());
}

/// A version that is given, for the project or for Python, and that `read_version` reads in
/// one way only is the version that the project has.
pub proof fn versions_are_what_they_are_read_as<
    V: Fn(&str) -> Option<Version>,
    R: Fn(&str) -> Option<Req>,
>(
    lines: &Vec<String>,
    read_version: V,
    read_req: R,
    entries: Vec<Entry>,
    config: Config,
    i: int,
    text: String,
    version: Version,
)
    requires
        call_ensures(read_entries, (lines,), entries),
        call_ensures(Config::from_lines::<V, R>, (lines, read_version, read_req), Ok(config)),
        0 <= i < entries@.len(),
        forall|t: &str, answer: Option<Version>|
            t@ == text@ && #[trigger] call_ensures(read_version, (t,), answer) ==> answer == Some(
                version,
            ),
    ensures
        entries@[i] == Entry::PyVersion(text) && (forall|k: int|
            i < k < entries@.len() ==> !(#[trigger] entries@[k] is PyVersion)) ==> (
        config.py_version matches Some(v) && v.major == version.major && v.minor == version.minor
            && v.patch == version.patch),
        entries@[i] == Entry::Version(text) && (forall|k: int|
            i < k < entries@.len() ==> !(#[trigger] entries@[k] is Version)) ==> (
        config.version matches Some(v) && v.major == version.major && v.minor == version.minor
            && v.patch == version.patch),
{
    last_entry_counts(lines, read_version, read_req, entries, config, i);
}

/// What no entry gives, a project does not have; and what has no key is never read.
pub proof fn what_is_not_given_is_missing<
    V: Fn(&str) -> Option<Version>,
    R: Fn(&str) -> Option<Req>,
>(lines: &Vec<String>, read_version: V, read_req: R, entries: Vec<Entry>, config: Config)
    requires
        call_ensures(read_entries, (lines,), entries),
        call_ensures(Config::from_lines::<V, R>, (lines, read_version, read_req), Ok(config)),
    ensures
        (forall|k: int| 0 <= k < entries@.len() ==> !(#[trigger] entries@[k] is Name))
            ==> config.name is None,
        (forall|k: int| 0 <= k < entries@.len() ==> !(#[trigger] entries@[k] is Description))
            ==> config.description is None,
        (forall|k: int| 0 <= k < entries@.len() ==> !(#[trigger] entries@[k] is Version))
            ==> config.version is None,
        (forall|k: int| 0 <= k < entries@.len() ==> !(#[trigger] entries@[k] is PyVersion))
            ==> config.py_version is None,
        config.author is None && config.author_email is None && config.homepage is None,
        config.repo_url is None && config.package_url is None && config.readme_filename is None,
        config.license is None && config.classifiers@.len() == 0 && config.keywords@.len() == 0,
{
    let settings = settings_of(lines, read_version, read_req, entries, config);
    assert forall|k: int| 0 <= k < settings.len() implies (#[trigger] settings[k] is Name
        <==> entries@[k] is Name) && (settings[k] is Description <==> entries@[k] is Description)
        && (settings[k] is Version <==> entries@[k] is Version) && (settings[k] is PyVersion
        <==> entries@[k] is PyVersion) by {
        assert(means(read_version, read_req, entries@[k].deep_view(), settings[k]));
    }
    missing_settings_stay_missing(settings);
    only_settings_are_read(settings);
    let view = config.deep_view();
    assert(view.classifiers == config.classifiers.deep_view());
    assert(view.keywords == config.keywords.deep_view());
    assert(config.classifiers.deep_view().len() == config.classifiers@.len());
    assert(config.keywords.deep_view().len() == config.keywords@.len());
    assert(view.name == config.name.deep_view());
    assert(view.description == config.description.deep_view());
    assert(view.author == config.author.deep_view());
    assert(view.author_email == config.author_email.deep_view());
    assert(view.homepage == config.homepage.deep_view());
    assert(view.repo_url == config.repo_url.deep_view());
    assert(view.package_url == config.package_url.deep_view());
    assert(view.readme_filename == config.readme_filename.deep_view());
    assert(view.license == config.license.deep_view());
}

/// The requirements of a project are those that the entries mean, in order.
proof fn requirements_are_kept_in_order<
    V: Fn(&str) -> Option<Version>,
    R: Fn(&str) -> Option<Req>,
>(read_version: V, read_req: R, entries: Seq<Entry>, settings: Seq<SettingView>)
    requires
        settings.len() == entries.len(),
        forall|i: int|
            0 <= i < settings.len() ==> means(
                read_version,
                read_req,
                entries[i].deep_view(),
                #[trigger] settings[i],
            ),
    ensures
        ({
            let written = entries.filter(|entry: Entry| entry is Dependency);
            let known = config_of(settings).dependencies;
            &&& known.len() == written.len()
            &&& forall|k: int|
                0 <= k < known.len() ==> req_answer(
                    read_req,
                    written[k]->Dependency_0@,
                    Some(#[trigger] known[k]),
                )
        }),
    decreases settings.len(),
{
    reveal(Seq::filter);
    let written = entries.filter(|entry: Entry| entry is Dependency);
    if settings.len() > 0 {
        let rest = settings.drop_last();
        let before = entries.drop_last();
        assert forall|i: int| 0 <= i < rest.len() implies means(
            read_version,
            read_req,
            before[i].deep_view(),
            #[trigger] rest[i],
        ) by {
            assert(means(read_version, read_req, entries[i].deep_view(), settings[i]));
        }
        requirements_are_kept_in_order(read_version, read_req, before, rest);
        assert(means(
            read_version,
            read_req,
            entries[entries.len() - 1].deep_view(),
            settings[settings.len() - 1],
        ));
        let known = config_of(settings).dependencies;
        let old_known = config_of(rest).dependencies;
        let old_written = before.filter(|entry: Entry| entry is Dependency);
        assert forall|k: int| 0 <= k < known.len() implies req_answer(
            read_req,
            written[k]->Dependency_0@,
            Some(#[trigger] known[k]),
        ) by {
            if k < old_known.len() {
                assert(known[k] == old_known[k]);
                assert(written[k] == old_written[k]);
            }
        }
    }
}

/// The requirements of a project are those of its entries, read one for one and in order.
pub proof fn requirements_are_read_in_order<
    V: Fn(&str) -> Option<Version>,
    R: Fn(&str) -> Option<Req>,
>(lines: &Vec<String>, read_version: V, read_req: R, entries: Vec<Entry>, config: Config, k: int)
    requires
        call_ensures(read_entries, (lines,), entries),
        call_ensures(Config::from_lines::<V, R>, (lines, read_version, read_req), Ok(config)),
    ensures
        ({
            let written = entries@.filter(|entry: Entry| entry is Dependency);
            &&& config.dependencies@.len() == written.len()
            &&& 0 <= k < written.len() ==> exists|t: &str, req: Req|
                {
                    &&& #[trigger] call_ensures(read_req, (t,), Some(req))
                    &&& t@ == written[k]->Dependency_0@
                    &&& config.dependencies@[k].name@ == req.name@
                    &&& config.dependencies@[k].constraints.deep_view()
                        == req.constraints.deep_view()
                }
        }),
{
    let settings = settings_of(lines, read_version, read_req, entries, config);
    requirements_are_kept_in_order(read_version, read_req, entries@, settings);
    let written = entries@.filter(|entry: Entry| entry is Dependency);
    let known = config_of(settings).dependencies;
    assert(config.deep_view().dependencies == config.dependencies.deep_view());
    assert(known.len() == config.dependencies@.len());
    if 0 <= k < written.len() {
        assert(req_answer(read_req, written[k]->Dependency_0@, Some(known[k])));
        let (t, answer) = choose|t: &str, answer: Option<Req>|
            t@ == written[k]->Dependency_0@ && answer.deep_view() == Some(known[k])
                && #[trigger] call_ensures(read_req, (t,), answer);
        assert(answer is Some);
        let req = answer->0;
        assert(answer == Some(req));
        assert(req.deep_view() == known[k]);
        assert(config.dependencies.deep_view()[k] == config.dependencies@[k].deep_view());
        assert(call_ensures(read_req, (t,), Some(req)));
    }
}

/// Whether a text that `entry` holds can be refused.
pub open spec fn may_be_refused<V: Fn(&str) -> Option<Version>, R: Fn(&str) -> Option<Req>>(
    read_version: V,
    read_req: R,
    entry: Entry,
) -> bool {
    match entry {
        Entry::Version(text) | Entry::PyVersion(text) => exists|t: &str|
            t@ == text@ && #[trigger] call_ensures(read_version, (t,), None::<Version>),
        Entry::Dependency(text) => exists|t: &str|
            t@ == text@ && #[trigger] call_ensures(read_req, (t,), None::<Req>),
        _ => false,
    }
}

/// Whether a text that `entry` holds can be read.
pub open spec fn may_be_read<V: Fn(&str) -> Option<Version>, R: Fn(&str) -> Option<Req>>(
    read_version: V,
    read_req: R,
    entry: Entry,
) -> bool {
    match entry {
        Entry::Version(text) | Entry::PyVersion(text) => exists|t: &str, v: Version|
            t@ == text@ && #[trigger] call_ensures(read_version, (t,), Some(v)),
        Entry::Dependency(text) => exists|t: &str, r: Req|
            t@ == text@ && #[trigger] call_ensures(read_req, (t,), Some(r)),
        _ => true,
    }
}

/// Reading a project file fails with the first entry that is refused: that entry is handed
/// back, and all before it are read. Where no entry can be refused, reading succeeds.
pub proof fn first_refused_entry_is_handed_back<
    V: Fn(&str) -> Option<Version>,
    R: Fn(&str) -> Option<Req>,
>(
    lines: &Vec<String>,
    read_version: V,
    read_req: R,
    entries: Vec<Entry>,
    config: Result<Config, Entry>,
)
    requires
        call_ensures(read_entries, (lines,), entries),
        call_ensures(Config::from_lines::<V, R>, (lines, read_version, read_req), config),
    ensures
        (forall|i: int|
            0 <= i < entries@.len() ==> !may_be_refused(
                read_version,
                read_req,
                #[trigger] entries@[i],
            )) ==> config is Ok,
        (exists|i: int|
            0 <= i < entries@.len() && !may_be_read(read_version, read_req, #[trigger] entries@[i]))
            ==> config is Err,
        config matches Err(entry) ==> exists|at: int|
            {
                &&& 0 <= at < entries@.len()
                &&& (#[trigger] entries@[at]).deep_view() == entry.deep_view()
                &&& may_be_refused(read_version, read_req, entries@[at])
                &&& forall|i: int|
                    0 <= i < at ==> may_be_read(read_version, read_req, #[trigger] entries@[i])
            },
{
    let all = entries_of(lines.deep_view());
    assert(entries.deep_view().len() == entries@.len());
    match config {
        Ok(config) => {
            let settings = settings_of(lines, read_version, read_req, entries, config);
            assert forall|i: int| 0 <= i < entries@.len() implies may_be_read(
                read_version,
                read_req,
                #[trigger] entries@[i],
            ) by {
                meaning_is_read(read_version, read_req, entries@[i], settings[i]);
            }
        },
        Err(entry) => {
            let settings = choose|settings: Seq<SettingView>|
                {
                    &&& settings.len() < all.len()
                    &&& #[trigger] are_settings(read_version, read_req, all, settings)
                    &&& entry.deep_view() == all[settings.len() as int]
                    &&& is_refused(read_version, read_req, entry.deep_view())
                };
            let at = settings.len() as int;
            assert(entries.deep_view()[at] == entries@[at].deep_view());
            refusal_is_refused(read_version, read_req, entries@[at]);
            assert forall|i: int| 0 <= i < at implies may_be_read(
                read_version,
                read_req,
                #[trigger] entries@[i],
            ) by {
                assert(entries.deep_view()[i] == entries@[i].deep_view());
                meaning_is_read(read_version, read_req, entries@[i], settings[i]);
            }
        },
    }
}

/// An entry that means something can be read.
proof fn meaning_is_read<V: Fn(&str) -> Option<Version>, R: Fn(&str) -> Option<Req>>(
    read_version: V,
    read_req: R,
    entry: Entry,
    setting: SettingView,
)
    requires
        means(read_version, read_req, entry.deep_view(), setting),
    ensures
        may_be_read(read_version, read_req, entry),
{
    if let Entry::Dependency(text) = entry {
        let r = setting->Dependency_0;
        let (t, answer) = choose|t: &str, answer: Option<Req>|
            t@ == text@ && answer.deep_view() == Some(r) && #[trigger] call_ensures(
                read_req,
                (t,),
                answer,
            );
        assert(answer == Some(answer->0));
    }
}

/// An entry that is refused can be refused.
proof fn refusal_is_refused<V: Fn(&str) -> Option<Version>, R: Fn(&str) -> Option<Req>>(
    read_version: V,
    read_req: R,
    entry: Entry,
)
    requires
        is_refused(read_version, read_req, entry.deep_view()),
    ensures
        may_be_refused(read_version, read_req, entry),
{
    if let Entry::Dependency(text) = entry {
        let (t, answer) = choose|t: &str, answer: Option<Req>|
            t@ == text@ && answer.deep_view() == None::<ReqView> && #[trigger] call_ensures(
                read_req,
                (t,),
                answer,
            );
        assert(answer == None::<Req>);
    }
}

/// A project that has no settings has none of them.
pub proof fn default_config_is_empty(config: Config)
    requires
        call_ensures(<Config as Default>::default, (), config),
    ensures
        config.py_version is None && config.version is None,
        config.name is None && config.description is None,
        config.dependencies@.len() == 0 && config.classifiers@.len() == 0 && config.keywords@.len()
            == 0,
        config.author is None && config.author_email is None && config.homepage is None,
        config.repo_url is None && config.package_url is None && config.readme_filename is None,
        config.license is None,
{
    let view = config.deep_view();
    assert(view == empty_config());
    assert(view.dependencies == config.dependencies.deep_view());
    assert(config.dependencies.deep_view().len() == config.dependencies@.len());
    assert(view.classifiers == config.classifiers.deep_view());
    assert(view.keywords == config.keywords.deep_view());
    assert(config.classifiers.deep_view().len() == config.classifiers@.len());
    assert(config.keywords.deep_view().len() == config.keywords@.len());
    assert(view.name == config.name.deep_view());
    assert(view.description == config.description.deep_view());
    assert(view.author == config.author.deep_view());
    assert(view.author_email == config.author_email.deep_view());
    assert(view.homepage == config.homepage.deep_view());
    assert(view.repo_url == config.repo_url.deep_view());
    assert(view.package_url == config.package_url.deep_view());
    assert(view.readme_filename == config.readme_filename.deep_view());
    assert(view.license == config.license.deep_view());
}

} // verus!
