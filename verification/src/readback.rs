//! What the package manager writes to a project file, it reads back.

use crate::config::{
    are_settings, are_shown_reqs, config_of, dependencies_header, empty_config, empty_line_is_silent, entries_of,
    file_lines, is_comment, is_header, is_refused, is_shown_req, is_shown_version, later_settings_override,
    line_entries, listed, means, or_empty, place_after, place_of, plain_line_gives_nothing,
    read_entries, req_answer, setting_keys, settings_header, Config, ConfigView, Entry, EntryView,
    Place, SettingView,
};
use crate::lines::{are_lines_of, is_line, joined, lines_are_unique};
use crate::pattern::{
    all_word, assignment, assignment_is_read_back, bracket_pair_at, has_bracket_pair, is_word,
    key_is_unique, key_value, no_newline, no_open_bracket,
};
use crate::packages::answers_only;
use crate::project::{pyproject_init, pyproject_lines};
use crate::version::{version_answer, Req, Version};
use vstd::prelude::*;

verus! {

/// The line that gives `key` the quoted `value`, with a space on either side of the sign.
pub open spec fn setting_line(key: Seq<char>, value: Seq<char>) -> Seq<char> {
    assignment(key, seq![' '], seq![' '], value)
}

/// A line that gives a key a quoted value without brackets opens no table, is no comment,
/// and gives that value to that key and none to any other.
pub proof fn setting_line_is_read(key: Seq<char>, value: Seq<char>)
    requires
        all_word(key),
        key.len() > 0,
        no_newline(value),
        !has_bracket_pair(value),
    ensures
        !is_comment(setting_line(key, value)),
        !is_header(setting_line(key, value)),
        key_value(key, setting_line(key, value)) == Some(value),
        forall|other: Seq<char>|
            all_word(other) && other != key ==> #[trigger] key_value(
                other,
                setting_line(key, value),
            ) is None,
{
    let line = setting_line(key, value);
    let start = key.len() + 4;
    assignment_is_read_back(key, seq![' '], seq![' '], value);
    assert(is_word(key[0]));
    assert(line[0] == key[0]);
    reveal_strlit("[tool.pypackage]");
    reveal_strlit("[tool.pypackage.dependencies]");
    assert(settings_header()[0] == '[');
    assert(dependencies_header()[0] == '[');
    if has_bracket_pair(line) {
        let (i, j) = choose|i: int, j: int| #[trigger] bracket_pair_at(line, i, j);
        assert(i >= start && j >= start) by {
            if i < key.len() {
                assert(is_word(key[i]));
            }
            if j < key.len() {
                assert(is_word(key[j]));
            }
        }
        assert(j < start + value.len());
        assert(bracket_pair_at(value, i - start, j - start));
    }
    assert forall|other: Seq<char>| all_word(other) && other != key implies #[trigger] key_value(
        other,
        line,
    ) is None by {
        if key_value(other, line) is Some {
            key_is_unique(line, key, other);
        }
    }
}

/// What a line adds to the lines before it.
proof fn pushed_line(lines: Seq<Seq<char>>, line: Seq<char>)
    ensures
        place_of(lines.push(line)) == place_after(place_of(lines), line),
        entries_of(lines.push(line)) == entries_of(lines) + line_entries(place_of(lines), line),
{
    assert(lines.push(line).drop_last() =~= lines);
}

/// The headers open their tables.
proof fn headers_open_tables()
    ensures
        !is_comment(settings_header()),
        !is_comment(dependencies_header()),
        settings_header() != dependencies_header(),
        is_line(settings_header()),
        is_line(dependencies_header()),
{
    reveal_strlit("[tool.pypackage]");
    reveal_strlit("[tool.pypackage.dependencies]");
    assert(settings_header().len() != dependencies_header().len());
}

/// The lines of a new project's file that give a key a value.
proof fn template_lines(name: Seq<char>)
    requires
        no_newline(name),
    ensures
        pyproject_lines(name)[1] == setting_line("name"@, name),
        pyproject_lines(name)[2] == setting_line("py_version"@, "3.7"@),
        pyproject_lines(name)[3] == setting_line("version"@, "0.1.0"@),
        pyproject_lines(name)[4] == setting_line("description"@, Seq::empty()),
        pyproject_lines(name)[5] == setting_line("author"@, Seq::empty()),
        pyproject_lines(name)[6].len() == 0,
        pyproject_lines(name)[7] == setting_line("pyackage_url"@, "https://test.pypi.org"@),
        is_comment(pyproject_lines(name)[8]),
        pyproject_lines(name)[9].len() == 0,
        forall|i: int| 0 <= i < 11 ==> is_line(#[trigger] pyproject_lines(name)[i]),
{
    let all = pyproject_lines(name);
    headers_open_tables();
    reveal_strlit("name");
    reveal_strlit("description");
    reveal_strlit("version");
    reveal_strlit("py_version");
    reveal_strlit("author");
    reveal_strlit("pyackage_url");
    reveal_strlit("3.7");
    reveal_strlit("0.1.0");
    reveal_strlit("https://test.pypi.org");
    reveal_strlit("name = \"");
    reveal_strlit("\"");
    reveal_strlit("");
    reveal_strlit("py_version = \"3.7\"");
    reveal_strlit("version = \"0.1.0\"");
    reveal_strlit("description = \"\"");
    reveal_strlit("author = \"\"");
    reveal_strlit("pyackage_url = \"https://test.pypi.org\"");
    reveal_strlit("# pyackage_url = \"https://pypi.org\"");
    assert(all[1] =~= setting_line("name"@, name));
    assert(all[2] =~= setting_line("py_version"@, "3.7"@));
    assert(all[3] =~= setting_line("version"@, "0.1.0"@));
    assert(all[4] =~= setting_line("description"@, Seq::empty()));
    assert(all[5] =~= setting_line("author"@, Seq::empty()));
    assert(all[7] =~= setting_line("pyackage_url"@, "https://test.pypi.org"@));
}

/// The project file of a new project is read back: it holds the project's name, the version
/// of Python, the version of the project and an empty description, and no requirement. The
/// name is on one line, and holds no pair of brackets, which would be taken for a table.
pub proof fn new_project_is_read_back(name: Seq<char>, lines: Seq<Seq<char>>)
    requires
        no_newline(name),
        !has_bracket_pair(name),
        are_lines_of(lines, joined(pyproject_lines(name))),
    ensures
        entries_of(lines) == seq![
            EntryView::Name(name),
            EntryView::PyVersion("3.7"@),
            EntryView::Version("0.1.0"@),
            EntryView::Description(Seq::empty()),
        ],
{
    let all = pyproject_lines(name);
    let none = Seq::<char>::empty();
    setting_keys();
    headers_open_tables();
    template_lines(name);
    lines_are_unique(lines, all, joined(all));
    assert(all_word("author"@) && "author"@.len() == 6) by {
        reveal_strlit("author");
    }
    assert(all_word("pyackage_url"@) && "pyackage_url"@.len() == 12) by {
        reveal_strlit("pyackage_url");
    }
    assert(no_newline("3.7"@) && !has_bracket_pair("3.7"@) && "3.7"@.len() > 0) by {
        reveal_strlit("3.7");
        no_open_bracket("3.7"@);
    }
    assert(no_newline("0.1.0"@) && !has_bracket_pair("0.1.0"@) && "0.1.0"@.len() > 0) by {
        reveal_strlit("0.1.0");
        no_open_bracket("0.1.0"@);
    }
    let url = "https://test.pypi.org"@;
    assert(no_newline(url) && !has_bracket_pair(url)) by {
        reveal_strlit("https://test.pypi.org");
        no_open_bracket(url);
    }
    no_open_bracket(none);
    setting_line_is_read("name"@, name);
    setting_line_is_read("py_version"@, "3.7"@);
    setting_line_is_read("version"@, "0.1.0"@);
    setting_line_is_read("description"@, none);
    setting_line_is_read("author"@, none);
    setting_line_is_read("pyackage_url"@, url);
    empty_line_is_silent(all[6]);
    empty_line_is_silent(all[9]);
    let to0 = Seq::<Seq<char>>::empty();
    let to1 = to0.push(all[0]);
    let to2 = to1.push(all[1]);
    let to3 = to2.push(all[2]);
    let to4 = to3.push(all[3]);
    let to5 = to4.push(all[4]);
    let to6 = to5.push(all[5]);
    let to7 = to6.push(all[6]);
    let to8 = to7.push(all[7]);
    let to9 = to8.push(all[8]);
    let to10 = to9.push(all[9]);
    let to11 = to10.push(all[10]);
    pushed_line(to0, all[0]);
    pushed_line(to1, all[1]);
    pushed_line(to2, all[2]);
    pushed_line(to3, all[3]);
    pushed_line(to4, all[4]);
    pushed_line(to5, all[5]);
    pushed_line(to6, all[6]);
    pushed_line(to7, all[7]);
    pushed_line(to8, all[8]);
    pushed_line(to9, all[9]);
    pushed_line(to10, all[10]);
    assert(all =~= to11);
    assert(entries_of(all) =~= seq![
        EntryView::Name(name),
        EntryView::PyVersion("3.7"@),
        EntryView::Version("0.1.0"@),
        EntryView::Description(none),
    ]);
}

/// Whether a line among the settings is passed over: it is written and read as one line,
/// opens no other table and gives no setting.
pub open spec fn is_idle(line: Seq<char>) -> bool {
    &&& is_line(line)
    &&& place_after(Place::Settings, line) == Place::Settings
    &&& line_entries(Place::Settings, line).len() == 0
}

/// Whether a line among the requirements is read as one.
pub open spec fn is_req_line(line: Seq<char>) -> bool {
    &&& is_line(line)
    &&& line.len() > 0
    &&& !is_comment(line)
    &&& !is_header(line)
}

/// The requirements that lines give, one for one.
pub open spec fn as_dependencies(lines: Seq<Seq<char>>) -> Seq<EntryView> {
    Seq::new(lines.len(), |i: int| EntryView::Dependency(lines[i]))
}

/// The version that a text gives; an empty one does not count.
pub open spec fn as_version(text: Seq<char>) -> Seq<EntryView> {
    if text.len() > 0 {
        seq![EntryView::Version(text)]
    } else {
        Seq::empty()
    }
}

/// Idle lines change nothing.
proof fn idle_lines_pass(lines: Seq<Seq<char>>, line: Option<Seq<char>>)
    requires
        place_of(lines) == Place::Settings,
        line matches Some(text) ==> is_idle(text),
    ensures
        place_of(lines + listed(line)) == Place::Settings,
        entries_of(lines + listed(line)) == entries_of(lines),
{
    match line {
        Some(text) => {
            assert(lines + listed(line) =~= lines.push(text));
            pushed_line(lines, text);
            assert(entries_of(lines.push(text)) =~= entries_of(lines));
        },
        None => {
            assert(lines + listed(line) =~= lines);
        },
    }
}

/// Lines among the requirements are read one for one.
proof fn req_lines_are_read(lines: Seq<Seq<char>>, reqs: Seq<Seq<char>>)
    requires
        place_of(lines) == Place::Dependencies,
        forall|i: int| 0 <= i < reqs.len() ==> is_req_line(#[trigger] reqs[i]),
    ensures
        place_of(lines + reqs) == Place::Dependencies,
        entries_of(lines + reqs) == entries_of(lines) + as_dependencies(reqs),
    decreases reqs.len(),
{
    if reqs.len() == 0 {
        assert(lines + reqs =~= lines);
        assert(entries_of(lines) + as_dependencies(reqs) =~= entries_of(lines));
    } else {
        let rest = reqs.drop_last();
        assert forall|i: int| 0 <= i < rest.len() implies is_req_line(#[trigger] rest[i]) by {
            assert(is_req_line(reqs[i]));
        }
        req_lines_are_read(lines, rest);
        assert(is_req_line(reqs[reqs.len() - 1]));
        pushed_line(lines + rest, reqs.last());
        assert(lines + reqs =~= (lines + rest).push(reqs.last()));
        assert(entries_of(lines) + as_dependencies(reqs) =~= entries_of(lines) + as_dependencies(
            rest,
        ) + seq![EntryView::Dependency(reqs.last())]);
    }
}

/// A project file that was written is read back: it gives the project's name, an empty one
/// where there was none; the requirements, in order; and as the project's version the one
/// that was written under that key. The name and that version hold no pair of brackets,
/// which would be taken for a table; what stands by itself is passed over; and the
/// requirements are neither comments nor tables.
pub proof fn written_file_is_read_back(
    name: Option<Seq<char>>,
    py_version: Option<Seq<char>>,
    version: Option<Seq<char>>,
    author: Option<Seq<char>>,
    reqs: Seq<Seq<char>>,
    lines: Seq<Seq<char>>,
)
    requires
        no_newline(or_empty(name)) && !has_bracket_pair(or_empty(name)),
        no_newline(or_empty(py_version)) && !has_bracket_pair(or_empty(py_version)),
        version matches Some(text) ==> is_idle(text),
        author matches Some(text) ==> is_idle(text),
        forall|i: int| 0 <= i < reqs.len() ==> is_req_line(#[trigger] reqs[i]),
        are_lines_of(lines, joined(file_lines(name, py_version, version, author, reqs))),
    ensures
        entries_of(lines) == seq![EntryView::Name(or_empty(name))] + as_version(
            or_empty(py_version),
        ) + as_dependencies(reqs),
{
    let all = file_lines(name, py_version, version, author, reqs);
    let none = Seq::<char>::empty();
    let name_line = "name = \""@ + or_empty(name) + "\""@;
    let version_line = "version = \""@ + or_empty(py_version) + "\""@;
    let top = seq![settings_header(), name_line, version_line];
    let with_version = top + listed(version);
    let with_author = with_version + listed(author);
    let bottom = seq![none, none, dependencies_header()];
    let head = with_author + bottom;
    headers_open_tables();
    setting_keys();
    assert(name_line == setting_line("name"@, or_empty(name)) && is_line(name_line)) by {
        reveal_strlit("name");
        reveal_strlit("name = \"");
        reveal_strlit("\"");
        assert(name_line =~= setting_line("name"@, or_empty(name)));
    }
    assert(version_line == setting_line("version"@, or_empty(py_version)) && is_line(
        version_line,
    )) by {
        reveal_strlit("version");
        reveal_strlit("version = \"");
        reveal_strlit("\"");
        assert(version_line =~= setting_line("version"@, or_empty(py_version)));
    }
    assert(all =~= head + reqs);
    assert(forall|i: int| 0 <= i < all.len() ==> is_line(#[trigger] all[i])) by {
        assert forall|i: int| 0 <= i < all.len() implies is_line(#[trigger] all[i]) by {
            let at = i - with_author.len();
            if i < top.len() {
                assert(all[i] == top[i]);
            } else if i < with_version.len() {
                assert(all[i] == version->0);
            } else if i < with_author.len() {
                assert(all[i] == author->0);
            } else if i < head.len() {
                assert(all[i] == bottom[at]);
            } else {
                assert(all[i] == reqs[at - 3]);
                assert(is_req_line(reqs[at - 3]));
            }
        }
    }
    lines_are_unique(lines, all, joined(all));
    setting_line_is_read("name"@, or_empty(name));
    setting_line_is_read("version"@, or_empty(py_version));
    empty_line_is_silent(none);
    let nothing = Seq::<Seq<char>>::empty();
    pushed_line(nothing, settings_header());
    pushed_line(nothing.push(settings_header()), name_line);
    pushed_line(nothing.push(settings_header()).push(name_line), version_line);
    assert(top =~= nothing.push(settings_header()).push(name_line).push(version_line));
    let given = seq![EntryView::Name(or_empty(name))] + as_version(or_empty(py_version));
    assert(entries_of(top) =~= given);
    idle_lines_pass(top, version);
    idle_lines_pass(with_version, author);
    pushed_line(with_author, none);
    pushed_line(with_author.push(none), none);
    pushed_line(with_author.push(none).push(none), dependencies_header());
    assert(head =~= with_author.push(none).push(none).push(dependencies_header()));
    assert(entries_of(head) =~= given);
    req_lines_are_read(head, reqs);
}

/// Whether `text` holds digits and dots alone, as a written version does.
pub open spec fn is_dotted(text: Seq<char>) -> bool {
    forall|i: int| 0 <= i < text.len() ==> '0' <= #[trigger] text[i] <= '9' || text[i] == '.'
}

/// A version that is written with digits and dots alone may stand by itself among the
/// settings, where it is passed over, and between quotes, where it is read.
pub proof fn dotted_versions_are_idle(text: Seq<char>)
    requires
        is_dotted(text),
    ensures
        is_idle(text),
        no_newline(text),
        !has_bracket_pair(text),
{
    plain_line_gives_nothing(text);
}

/// Requirements add up in order.
proof fn requirements_add_up(settings: Seq<SettingView>)
    requires
        forall|i: int| 0 <= i < settings.len() ==> #[trigger] settings[i] is Dependency,
    ensures
        config_of(settings) == (ConfigView {
            dependencies: Seq::new(settings.len(), |i: int| settings[i]->Dependency_0),
            ..empty_config()
        }),
    decreases settings.len(),
{
    let reqs = Seq::new(settings.len(), |i: int| settings[i]->Dependency_0);
    if settings.len() == 0 {
        assert(reqs =~= Seq::empty());
    } else {
        let rest = settings.drop_last();
        requirements_add_up(rest);
        assert(settings[settings.len() - 1] is Dependency);
        assert(reqs =~= config_of(rest).dependencies.push(settings.last()->Dependency_0));
    }
}

/// Whether `read` answers `version` to `text`, and nothing else.
pub open spec fn is_read_as<V: Fn(&str) -> Option<Version>>(
    read: V,
    text: Seq<char>,
    version: Option<Version>,
) -> bool {
    forall|answer: Option<Version>| #[trigger]
        version_answer(read, text, answer) ==> answer == version
}

/// Whether `read` is what is read of a project with `name` and `py_version` whose
/// requirements are written `reqs`. The version of Python, which is written under the key of
/// the project's version, is read as that; what has no key of its own is not read.
pub open spec fn is_read_of<R: Fn(&str) -> Option<Req>>(
    read_req: R,
    name: Option<Seq<char>>,
    py_version: Option<Version>,
    reqs: Seq<Seq<char>>,
    read: ConfigView,
) -> bool {
    &&& read.dependencies.len() == reqs.len()
    &&& forall|i: int|
        0 <= i < reqs.len() ==> req_answer(read_req, reqs[i], Some(#[trigger] read.dependencies[i]))
    &&& read == ConfigView {
        name: Some(or_empty(name)),
        version: py_version,
        dependencies: read.dependencies,
        ..empty_config()
    }
}

/// A project that was written is read back. Nothing in its file is refused, and whatever is
/// read of it has the project's name, an empty one where there was none; the requirements,
/// read one for one and in order; the version of Python, as the project's version; and
/// nothing else. `py`, `version` and `reqs` are what was written of the two versions and the
/// requirements. The name and `py` are on one line and hold no pair of brackets, `py` is read
/// as the version that it was written for, `version` and the author are passed over, and each
/// of `reqs` is a line that is read as a requirement.
pub proof fn written_project_is_read_back<
    S: Fn(&Version) -> String,
    V: Fn(&str) -> Option<Version>,
    R: Fn(&str) -> Option<Req>,
>(
    config: Config,
    show_version: S,
    read_version: V,
    read_req: R,
    py: Option<Seq<char>>,
    version: Option<Seq<char>>,
    reqs: Seq<Seq<char>>,
    lines: Seq<Seq<char>>,
)
    requires
        is_shown_version(show_version, config.py_version, py),
        is_shown_version(show_version, config.version, version),
        are_lines_of(
            lines,
            joined(
                file_lines(config.name.deep_view(), py, version, config.author.deep_view(), reqs),
            ),
        ),
        no_newline(or_empty(config.name.deep_view())),
        !has_bracket_pair(or_empty(config.name.deep_view())),
        no_newline(or_empty(py)) && !has_bracket_pair(or_empty(py)),
        py matches Some(text) ==> text.len() > 0 && is_read_as(
            read_version,
            text,
            config.py_version,
        ),
        version matches Some(text) ==> is_idle(text),
        config.author.deep_view() matches Some(text) ==> is_idle(text),
        forall|i: int|
            0 <= i < reqs.len() ==> is_req_line(#[trigger] reqs[i]) && !req_answer(
                read_req,
                reqs[i],
                None,
            ),
    ensures
        forall|i: int|
            0 <= i < entries_of(lines).len() ==> !is_refused(
                read_version,
                read_req,
                #[trigger] entries_of(lines)[i],
            ),
        forall|settings: Seq<SettingView>|
            settings.len() == entries_of(lines).len() && #[trigger] are_settings(
                read_version,
                read_req,
                entries_of(lines),
                settings,
            ) ==> is_read_of(
                read_req,
                config.name.deep_view(),
                config.py_version,
                reqs,
                config_of(settings),
            ),
{
    let name = config.name.deep_view();
    let entries = entries_of(lines);
    let given = seq![EntryView::Name(or_empty(name))] + as_version(or_empty(py));
    let n = given.len();
    written_file_is_read_back(name, py, version, config.author.deep_view(), reqs, lines);
    assert(entries == given + as_dependencies(reqs));
    assert forall|i: int| 0 <= i < entries.len() implies !is_refused(
        read_version,
        read_req,
        #[trigger] entries[i],
    ) by {
        if i >= n {
            assert(entries[i] == EntryView::Dependency(reqs[i - n]));
        }
    }
    assert forall|settings: Seq<SettingView>|
        settings.len() == entries.len() && #[trigger] are_settings(
            read_version,
            read_req,
            entries,
            settings,
        ) implies is_read_of(read_req, name, config.py_version, reqs, config_of(settings)) by {
        let top = settings.take(n as int);
        let rest = settings.skip(n as int);
        assert(top + rest =~= settings);
        assert forall|i: int| 0 <= i < rest.len() implies #[trigger] rest[i] is Dependency
            && req_answer(read_req, reqs[i], Some(rest[i]->Dependency_0)) by {
            assert(entries[n + i] == EntryView::Dependency(reqs[i]));
            assert(means(read_version, read_req, entries[n + i], settings[n + i]));
        }
        let first = top.take(1);
        assert(entries[0] == EntryView::Name(or_empty(name)));
        assert(means(read_version, read_req, entries[0], settings[0]));
        assert(first.drop_last() =~= Seq::empty());
        assert(first.last() == SettingView::Name(or_empty(name)));
        assert(config_of(Seq::empty()) == empty_config());
        assert(config_of(first) == (ConfigView {
            name: Some(or_empty(name)),
            ..empty_config()
        }));
        if py is Some {
            assert(means(read_version, read_req, entries[1], settings[1]));
            assert(top.drop_last() =~= first);
        } else {
            assert(top =~= first);
        }
        requirements_add_up(rest);
        later_settings_override(top, rest);
        assert(config_of(settings).dependencies =~= config_of(rest).dependencies);
    }
}

/// The texts of lines that follow one another follow one another.
proof fn joined_in_two_parts(one: Seq<Seq<char>>, other: Seq<Seq<char>>)
    ensures
        joined(one + other) == joined(one) + joined(other),
    decreases other.len(),
{
    if other.len() == 0 {
        assert(one + other =~= one);
        assert(joined(one) + joined(other) =~= joined(one));
    } else {
        joined_in_two_parts(one, other.drop_last());
        assert((one + other).drop_last() =~= one + other.drop_last());
        assert(joined(one + other) =~= joined(one) + joined(other));
    }
}

/// The text of one line.
proof fn joined_line(line: Seq<char>)
    ensures
        joined(seq![line]) == line + seq!['\n'],
{
    assert(seq![line].drop_last() =~= Seq::empty());
    assert(joined(Seq::<Seq<char>>::empty()) =~= Seq::<char>::empty());
    assert(joined(seq![line]) =~= line + seq!['\n']);
}

/// A line of its own, where there is one.
spec fn own_line(text: Option<Seq<char>>) -> Seq<char> {
    match text {
        Some(text) => text + seq!['\n'],
        None => Seq::empty(),
    }
}

/// A project file is written as follows: the table of settings, with the name, and with the
/// version of Python under the key of the version, both empty where there is none; the
/// project's version and its author, where there are any, on lines of their own; two empty
/// lines; the table of requirements, with the requirements one to a line and in order. What is
/// written of the version of Python, of the project's version and of the requirements comes
/// out.
pub proof fn projects_are_written_out<V: Fn(&Version) -> String, R: Fn(&Req) -> String>(
    config: &Config,
    show_version: V,
    show_req: R,
    text: String,
) -> (shown: (Option<String>, Option<String>, Seq<String>))
    requires
        call_ensures(Config::file_text::<V, R>, (config, show_version, show_req), text),
    ensures
        shown.0 is Some <==> config.py_version is Some,
        shown.0 is Some ==> call_ensures(show_version, (&config.py_version->0,), shown.0->0),
        shown.1 is Some <==> config.version is Some,
        shown.1 is Some ==> call_ensures(show_version, (&config.version->0,), shown.1->0),
        shown.2.len() == config.dependencies@.len(),
        forall|i: int|
            0 <= i < shown.2.len() ==> call_ensures(
                show_req,
                (&config.dependencies@[i],),
                #[trigger] shown.2[i],
            ),
        text@ == "[tool.pypackage]\nname = \""@ + (match config.name {
            Some(name) => name@,
            None => Seq::empty(),
        }) + "\"\nversion = \""@ + (match shown.0 {
            Some(py) => py@,
            None => Seq::empty(),
        }) + "\"\n"@ + (match shown.1 {
            Some(version) => version@ + seq!['\n'],
            None => Seq::empty(),
        }) + (match config.author {
            Some(author) => author@ + seq!['\n'],
            None => Seq::empty(),
        }) + "\n\n[tool.pypackage.dependencies]\n"@ + joined(
            shown.2.map_values(|req: String| req@),
        ),
{
    let name = config.name.deep_view();
    let author = config.author.deep_view();
    let (py, version, reqs) = choose|
        py: Option<Seq<char>>,
        version: Option<Seq<char>>,
        reqs: Seq<Seq<char>>,
    |
        {
            &&& is_shown_version(show_version, config.py_version, py)
            &&& is_shown_version(show_version, config.version, version)
            &&& are_shown_reqs(show_req, config.dependencies@, reqs)
            &&& text@ == joined(#[trigger] file_lines(name, py, version, author, reqs))
        };
    let shown_py = version_as_shown(show_version, config.py_version, py);
    let shown_version = version_as_shown(show_version, config.version, version);
    let shown_reqs = Seq::new(
        reqs.len(),
        |i: int|
            choose|shown: String|
                shown@ == reqs[i] && #[trigger] call_ensures(
                    show_req,
                    (&config.dependencies@[i],),
                    shown,
                ),
    );
    assert forall|i: int| 0 <= i < reqs.len() implies (#[trigger] shown_reqs[i])@ == reqs[i]
        && call_ensures(show_req, (&config.dependencies@[i],), shown_reqs[i]) by {
        assert(is_shown_req(show_req, config.dependencies@[i], reqs[i]));
    }
    assert(shown_reqs.map_values(|req: String| req@) =~= reqs);
    lines_in_two_halves(name, py, version, author, reqs);
    upper_half_is_written(name, py);
    lower_half_is_written(reqs);
    let upper = "[tool.pypackage]\nname = \""@ + or_empty(name) + "\"\nversion = \""@ + or_empty(py)
        + "\"\n"@;
    let middle = upper + own_line(version) + own_line(author);
    assert(text@ == middle + ("\n\n[tool.pypackage.dependencies]\n"@ + joined(reqs)));
    assert(text@ =~= middle + "\n\n[tool.pypackage.dependencies]\n"@ + joined(reqs));
    (shown_py, shown_version, shown_reqs)
}

/// What was written of a version, as it was handed out.
proof fn version_as_shown<V: Fn(&Version) -> String>(
    show: V,
    version: Option<Version>,
    text: Option<Seq<char>>,
) -> (shown: Option<String>)
    requires
        is_shown_version(show, version, text),
    ensures
        shown is Some <==> version is Some,
        shown is Some ==> call_ensures(show, (&version->0,), shown->0),
        shown.deep_view() == text,
{
    match text {
        Some(text) => {
            let v = version->0;
            let shown = choose|shown: String|
                shown@ == text && #[trigger] call_ensures(show, (&v,), shown);
            Some(shown)
        },
        None => None,
    }
}

/// The lines of a project file above the lines without a key, those lines, and the lines
/// below them.
proof fn lines_in_two_halves(
    name: Option<Seq<char>>,
    py: Option<Seq<char>>,
    version: Option<Seq<char>>,
    author: Option<Seq<char>>,
    reqs: Seq<Seq<char>>,
)
    ensures
        joined(file_lines(name, py, version, author, reqs)) == joined(upper_lines(name, py))
            + own_line(version) + own_line(author) + joined(lower_lines() + reqs),
{
    let top = upper_lines(name, py);
    let low = lower_lines() + reqs;
    assert(file_lines(name, py, version, author, reqs) =~= top + listed(version) + listed(author)
        + low);
    joined_in_two_parts(top + listed(version) + listed(author), low);
    joined_in_two_parts(top + listed(version), listed(author));
    joined_in_two_parts(top, listed(version));
    listed_line(version);
    listed_line(author);
}

/// The lines of a project file that hold the settings.
spec fn upper_lines(name: Option<Seq<char>>, py: Option<Seq<char>>) -> Seq<Seq<char>> {
    seq![
        settings_header(),
        "name = \""@ + or_empty(name) + "\""@,
        "version = \""@ + or_empty(py) + "\""@,
    ]
}

/// The lines of a project file that open the table of requirements.
spec fn lower_lines() -> Seq<Seq<char>> {
    seq![Seq::empty(), Seq::empty(), dependencies_header()]
}

/// The text of the settings.
proof fn upper_half_is_written(name: Option<Seq<char>>, py: Option<Seq<char>>)
    ensures
        joined(upper_lines(name, py)) == "[tool.pypackage]\nname = \""@ + or_empty(name)
            + "\"\nversion = \""@ + or_empty(py) + "\"\n"@,
{
    let header = settings_header();
    let name_line = "name = \""@ + or_empty(name) + "\""@;
    let version_line = "version = \""@ + or_empty(py) + "\""@;
    let feed = seq!['\n'];
    assert(upper_lines(name, py) =~= seq![header] + seq![name_line] + seq![version_line]);
    joined_in_two_parts(seq![header] + seq![name_line], seq![version_line]);
    joined_in_two_parts(seq![header], seq![name_line]);
    joined_line(header);
    joined_line(name_line);
    joined_line(version_line);
    written_pieces();
    regrouped(header + feed, "name = \""@, or_empty(name), "\""@, feed);
    let start = header + feed + "name = \""@ + or_empty(name);
    regrouped(start + ("\""@ + feed), "version = \""@, or_empty(py), "\""@, feed);
    assert(start + ("\""@ + feed) + "version = \""@ =~= start + ("\""@ + feed + "version = \""@));
}

/// A line after what stands before it.
proof fn regrouped(
    before: Seq<char>,
    key: Seq<char>,
    value: Seq<char>,
    quote: Seq<char>,
    feed: Seq<char>,
)
    ensures
        before + (key + value + quote + feed) == before + key + value + (quote + feed),
{
    assert(before + (key + value + quote + feed) =~= before + key + value + (quote + feed));
}

/// The text of the requirements.
proof fn lower_half_is_written(reqs: Seq<Seq<char>>)
    ensures
        joined(lower_lines() + reqs) == "\n\n[tool.pypackage.dependencies]\n"@ + joined(reqs),
{
    let none = Seq::<char>::empty();
    let header = dependencies_header();
    let feed = seq!['\n'];
    joined_in_two_parts(lower_lines(), reqs);
    assert(lower_lines() =~= seq![none] + seq![none] + seq![header]);
    joined_in_two_parts(seq![none] + seq![none], seq![header]);
    joined_in_two_parts(seq![none], seq![none]);
    joined_line(none);
    joined_line(header);
    written_pieces();
    assert(none + feed =~= feed);
    assert(feed + feed + (header + feed) =~= feed + feed + header + feed);
}

/// The fixed pieces of a project file, line by line.
proof fn written_pieces()
    ensures
        "[tool.pypackage]\nname = \""@ == settings_header() + seq!['\n'] + "name = \""@,
        "\"\nversion = \""@ == "\""@ + seq!['\n'] + "version = \""@,
        "\"\n"@ == "\""@ + seq!['\n'],
        "\n\n[tool.pypackage.dependencies]\n"@ == seq!['\n'] + seq!['\n'] + dependencies_header()
            + seq!['\n'],
{
    reveal_strlit("[tool.pypackage]");
    reveal_strlit("[tool.pypackage.dependencies]");
    reveal_strlit("name = \"");
    reveal_strlit("version = \"");
    reveal_strlit("\"");
    reveal_strlit("[tool.pypackage]\nname = \"");
    reveal_strlit("\"\nversion = \"");
    reveal_strlit("\"\n");
    reveal_strlit("\n\n[tool.pypackage.dependencies]\n");
    assert("[tool.pypackage]\nname = \""@ =~= settings_header() + seq!['\n'] + "name = \""@);
    assert("\"\nversion = \""@ =~= "\""@ + seq!['\n'] + "version = \""@);
    assert("\"\n"@ =~= "\""@ + seq!['\n']);
    assert("\n\n[tool.pypackage.dependencies]\n"@ =~= seq!['\n'] + seq!['\n']
        + dependencies_header() + seq!['\n']);
}

/// The text of a line that may be there.
proof fn listed_line(text: Option<Seq<char>>)
    ensures
        joined(listed(text)) == own_line(text),
{
    if let Some(line) = text {
        joined_line(line);
    }
}

/// Reading a project file that was written gives the project back: its name, its requirements
/// in order, and the version of Python, as the project's version. Versions are written with
/// digits and dots and read as what they were written for, and requirements are written as
/// lines that are read.
pub proof fn writing_and_reading_a_project<
    S: Fn(&Version) -> String,
    T: Fn(&Req) -> String,
    V: Fn(&str) -> Option<Version>,
    R: Fn(&str) -> Option<Req>,
>(
    config: &Config,
    show_version: S,
    show_req: T,
    read_version: V,
    read_req: R,
    text: String,
    lines: &Vec<String>,
    read: Result<Config, Entry>,
    i: int,
)
    requires
        call_ensures(Config::file_text::<S, T>, (config, show_version, show_req), text),
        call_ensures(Config::from_lines::<V, R>, (lines, read_version, read_req), read),
        are_lines_of(lines.deep_view(), text@),
        config.author is None,
        no_newline(or_empty(config.name.deep_view())),
        !has_bracket_pair(or_empty(config.name.deep_view())),
        forall|v: Version, shown: String| #[trigger]
            call_ensures(show_version, (&v,), shown) ==> shown@.len() > 0 && is_dotted(shown@)
                && answers_only(read_version, shown@, Some(v)),
        forall|r: Req, shown: String| #[trigger]
            call_ensures(show_req, (&r,), shown) ==> is_req_line(shown@) && forall|t: &str|
                t@ == shown@ ==> !#[trigger] call_ensures(read_req, (t,), None::<Req>),
    ensures
        read is Ok,
        read->Ok_0.name is Some,
        config.name matches Some(name) ==> read->Ok_0.name->0@ == name@,
        config.name is None ==> read->Ok_0.name->0@.len() == 0,
        read->Ok_0.version == config.py_version,
        read->Ok_0.py_version is None,
        read->Ok_0.description is None,
        read->Ok_0.dependencies@.len() == config.dependencies@.len(),
        0 <= i < config.dependencies@.len() ==> exists|shown: String, t: &str, req: Req|
            {
                &&& #[trigger] call_ensures(show_req, (&config.dependencies@[i],), shown)
                &&& t@ == shown@
                &&& #[trigger] call_ensures(read_req, (t,), Some(req))
                &&& read->Ok_0.dependencies@[i].name@ == req.name@
                &&& read->Ok_0.dependencies@[i].constraints.deep_view()
                    == req.constraints.deep_view()
            },
{
    let name = config.name.deep_view();
    let (py, version, reqs) = choose|
        py: Option<Seq<char>>,
        version: Option<Seq<char>>,
        reqs: Seq<Seq<char>>,
    |
        {
            &&& is_shown_version(show_version, config.py_version, py)
            &&& is_shown_version(show_version, config.version, version)
            &&& are_shown_reqs(show_req, config.dependencies@, reqs)
            &&& text@ == joined(
                #[trigger] file_lines(name, py, version, config.author.deep_view(), reqs),
            )
        };
    dotted_versions_are_idle(or_empty(py));
    dotted_versions_are_idle(or_empty(version));
    if let Some(shown) = py {
        let v = config.py_version->0;
        let written = choose|written: String|
            written@ == shown && #[trigger] call_ensures(show_version, (&v,), written);
        assert(answers_only(read_version, written@, Some(v)));
        assert(is_read_as(read_version, shown, config.py_version));
    }
    assert forall|k: int| 0 <= k < reqs.len() implies is_req_line(#[trigger] reqs[k])
        && !req_answer(read_req, reqs[k], None) by {
        let written = choose|written: String|
            written@ == reqs[k] && #[trigger] call_ensures(
                show_req,
                (&config.dependencies@[k],),
                written,
            );
        assert(call_ensures(show_req, (&config.dependencies@[k],), written));
        if req_answer(read_req, reqs[k], None) {
            let (t, answer) = choose|t: &str, answer: Option<Req>|
                t@ == reqs[k] && answer.deep_view() == None::<crate::version::ReqView>
                    && #[trigger] call_ensures(read_req, (t,), answer);
            assert(answer == None::<Req>);
        }
    }
    written_project_is_read_back(
        *config,
        show_version,
        read_version,
        read_req,
        py,
        version,
        reqs,
        lines.deep_view(),
    );
    let view = read->Ok_0.deep_view();
    assert(is_read_of(read_req, name, config.py_version, reqs, view));
    assert(view.name == read->Ok_0.name.deep_view());
    assert(view.description == read->Ok_0.description.deep_view());
    assert(view.dependencies == read->Ok_0.dependencies.deep_view());
    assert(view.dependencies.len() == read->Ok_0.dependencies@.len());
    if 0 <= i < config.dependencies@.len() {
        assert(req_answer(read_req, reqs[i], Some(view.dependencies[i])));
        let written = choose|written: String|
            written@ == reqs[i] && #[trigger] call_ensures(
                show_req,
                (&config.dependencies@[i],),
                written,
            );
        let (t, answer) = choose|t: &str, answer: Option<Req>|
            t@ == reqs[i] && answer.deep_view() == Some(view.dependencies[i])
                && #[trigger] call_ensures(read_req, (t,), answer);
        assert(answer == Some(answer->0));
        assert(answer->0.deep_view() == view.dependencies[i]);
        assert(read->Ok_0.dependencies.deep_view()[i] == read->Ok_0.dependencies@[i].deep_view());
        assert(call_ensures(show_req, (&config.dependencies@[i],), written));
        assert(call_ensures(read_req, (t,), Some(answer->0)));
    }
}

/// The project file of a new project gives the project's name, Python 3.7, version 0.1.0 and
/// an empty description, in this order, and nothing else.
pub proof fn new_projects_are_read(
    name: &str,
    text: String,
    lines: &Vec<String>,
    entries: Vec<Entry>,
)
    requires
        call_ensures(pyproject_init, (name,), text),
        call_ensures(read_entries, (lines,), entries),
        are_lines_of(lines.deep_view(), text@),
        no_newline(name@),
        !has_bracket_pair(name@),
    ensures
        entries@.len() == 4,
        entries@[0] matches Entry::Name(t) && t@ == name@,
        entries@[1] matches Entry::PyVersion(t) && t@ == "3.7"@,
        entries@[2] matches Entry::Version(t) && t@ == "0.1.0"@,
        entries@[3] matches Entry::Description(t) && t@.len() == 0,
{
    new_project_is_read_back(name@, lines.deep_view());
    let all = entries.deep_view();
    assert(all.len() == entries@.len());
    assert(all[0] == entries@[0].deep_view());
    assert(all[1] == entries@[1].deep_view());
    assert(all[2] == entries@[2].deep_view());
    assert(all[3] == entries@[3].deep_view());
}

/// The project file of a new project begins with the name of the project, and what follows the
/// name is the same for all.
pub proof fn new_projects_differ_in_name_alone(name: &str, text: String)
    requires
        call_ensures(pyproject_init, (name,), text),
    ensures
        text@ == "[tool.pypackage]\nname = \""@ + name@
            + "\"\npy_version = \"3.7\"\nversion = \"0.1.0\"\ndescription = \"\"\nauthor = \"\"\n\n"@
            + "pyackage_url = \"https://test.pypi.org\"\n# pyackage_url = \"https://pypi.org\"\n\n"@
            + "[tool.pypackage.dependencies]\n"@,
{
    let all = pyproject_lines(name@);
    let feed = seq!['\n'];
    let quote = "\""@;
    let name_line = "name = \""@ + name@ + quote;
    let settings = seq![all[2], all[3], all[4], all[5], all[6]];
    let links = seq![all[7], all[8], all[9]];
    let top = seq![settings_header()] + seq![name_line];
    let table = seq![dependencies_header()];
    assert(all =~= top + settings + links + table);
    joined_in_two_parts(top + settings + links, table);
    joined_in_two_parts(top + settings, links);
    joined_in_two_parts(top, settings);
    joined_in_two_parts(seq![settings_header()], seq![name_line]);
    joined_line(settings_header());
    joined_line(name_line);
    joined_line(dependencies_header());
    new_settings_are_written(settings);
    new_links_are_written(links);
    written_pieces();
    let rest = joined(settings);
    let start = settings_header() + feed;
    assert(joined(top) == start + (name_line + feed));
    assert(start + (name_line + feed) =~= start + "name = \""@ + name@ + (quote + feed));
    let opening = start + "name = \""@ + name@;
    assert(joined(top + settings) =~= opening + ((quote + feed) + rest));
    assert(dependencies_header() + feed == "[tool.pypackage.dependencies]\n"@) by {
        reveal_strlit("[tool.pypackage.dependencies]");
        reveal_strlit("[tool.pypackage.dependencies]\n");
        assert(dependencies_header() + feed =~= "[tool.pypackage.dependencies]\n"@);
    }
}

/// The text of the lines between the name and the links.
proof fn new_settings_are_written(lines: Seq<Seq<char>>)
    requires
        lines == seq![
            "py_version = \"3.7\""@,
            "version = \"0.1.0\""@,
            "description = \"\""@,
            "author = \"\""@,
            ""@,
        ],
    ensures
        "\""@ + seq!['\n'] + joined(lines)
            == "\"\npy_version = \"3.7\"\nversion = \"0.1.0\"\ndescription = \"\"\nauthor = \"\"\n\n"@,
{
    let a = seq![lines[0]];
    let b = seq![lines[1]];
    let c = seq![lines[2]];
    let d = seq![lines[3]];
    let e = seq![lines[4]];
    assert(lines =~= a + b + c + d + e);
    joined_in_two_parts(a + b + c + d, e);
    joined_in_two_parts(a + b + c, d);
    joined_in_two_parts(a + b, c);
    joined_in_two_parts(a, b);
    joined_line(lines[0]);
    joined_line(lines[1]);
    joined_line(lines[2]);
    joined_line(lines[3]);
    joined_line(lines[4]);
    reveal_strlit("\"");
    reveal_strlit("");
    reveal_strlit("py_version = \"3.7\"");
    reveal_strlit("version = \"0.1.0\"");
    reveal_strlit("description = \"\"");
    reveal_strlit("author = \"\"");
    reveal_strlit(
        "\"\npy_version = \"3.7\"\nversion = \"0.1.0\"\ndescription = \"\"\nauthor = \"\"\n\n",
    );
    assert("\""@ + seq!['\n'] + joined(lines)
        =~= "\"\npy_version = \"3.7\"\nversion = \"0.1.0\"\ndescription = \"\"\nauthor = \"\"\n\n"@);
}

/// The text of the lines that link to the package index.
proof fn new_links_are_written(lines: Seq<Seq<char>>)
    requires
        lines == seq![
            "pyackage_url = \"https://test.pypi.org\""@,
            "# pyackage_url = \"https://pypi.org\""@,
            ""@,
        ],
    ensures
        joined(lines)
            == "pyackage_url = \"https://test.pypi.org\"\n# pyackage_url = \"https://pypi.org\"\n\n"@,
{
    let a = seq![lines[0]];
    let b = seq![lines[1]];
    let c = seq![lines[2]];
    assert(lines =~= a + b + c);
    joined_in_two_parts(a + b, c);
    joined_in_two_parts(a, b);
    joined_line(lines[0]);
    joined_line(lines[1]);
    joined_line(lines[2]);
    reveal_strlit("");
    reveal_strlit("pyackage_url = \"https://test.pypi.org\"");
    reveal_strlit("# pyackage_url = \"https://pypi.org\"");
    reveal_strlit("pyackage_url = \"https://test.pypi.org\"\n# pyackage_url = \"https://pypi.org\"\n\n");
    assert(joined(lines)
        =~= "pyackage_url = \"https://test.pypi.org\"\n# pyackage_url = \"https://pypi.org\"\n\n"@);
}

} // verus!
