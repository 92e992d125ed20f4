//! The regular expressions of the package manager, and what they match.

use vstd::prelude::*;
use vstd::string::StringExecFns;

verus! {

/// Whether `\s` matches `c`: the characters of the Unicode property `White_Space`.
pub open spec fn is_space(c: char) -> bool {
    ||| '\t' <= c <= '\r'
    ||| c == ' '
    ||| c == '\u{85}'
    ||| c == '\u{a0}'
    ||| c == '\u{1680}'
    ||| '\u{2000}' <= c <= '\u{200a}'
    ||| '\u{2028}' <= c <= '\u{2029}'
    ||| c == '\u{202f}'
    ||| c == '\u{205f}'
    ||| c == '\u{3000}'
}

/// Whether `\s*` matches all of `text`.
pub open spec fn all_space(text: Seq<char>) -> bool {
    forall|i: int| 0 <= i < text.len() ==> is_space(#[trigger] text[i])
}

/// Whether `.*` matches all of `text`.
pub open spec fn no_newline(text: Seq<char>) -> bool {
    forall|i: int| 0 <= i < text.len() ==> #[trigger] text[i] != '\n'
}

/// An ASCII letter, a digit or an underscore: stands for itself in a pattern.
pub open spec fn is_word(c: char) -> bool {
    'a' <= c <= 'z' || 'A' <= c <= 'Z' || '0' <= c <= '9' || c == '_'
}

/// Whether every character of `text` stands for itself in a pattern.
pub open spec fn all_word(text: Seq<char>) -> bool {
    forall|i: int| 0 <= i < text.len() ==> is_word(#[trigger] text[i])
}

/// Whether a pattern can spell `key` out: plain characters, and not so many that the pattern
/// outgrows the regex crate's size limit. That limit is ten mebibytes, of which a character
/// takes up 32 bytes at most: enough for 327680 characters, if the pattern held nothing else.
pub open spec fn is_plain_key(key: Seq<char>) -> bool {
    all_word(key) && key.len() <= 327500
}

/// A table header: `[`, anything on one line, `]`, anywhere in the text.
pub open spec fn section_pattern() -> Seq<char> {
    "\\[.*\\]"@
}

/// Whether `text` holds a `[` and, further on in the same line, a `]`.
pub open spec fn has_bracket_pair(text: Seq<char>) -> bool {
    exists|i: int, j: int| #[trigger] bracket_pair_at(text, i, j)
}

/// Whether `text` holds a `[` at `i`, a `]` at `j`, and no line break between them.
pub open spec fn bracket_pair_at(text: Seq<char>, i: int, j: int) -> bool {
    &&& 0 <= i < j < text.len()
    &&& text[i] == '['
    &&& text[j] == ']'
    &&& no_newline(text.subrange(i, j))
}

/// A line that gives `key` a quoted value.
pub open spec fn key_pattern(key: Seq<char>) -> Seq<char> {
    "^"@ + key + "\\s*=\\s*\"(.*)\"$"@
}

/// The line that gives `key` the quoted `value`, with `left` and `right` around the sign.
pub open spec fn assignment(
    key: Seq<char>,
    left: Seq<char>,
    right: Seq<char>,
    value: Seq<char>,
) -> Seq<char> {
    key + left + seq!['='] + right + seq!['"'] + value + seq!['"']
}

/// Whether `line` gives `key` the quoted `value`, with white space alone around the sign.
pub open spec fn assigns(line: Seq<char>, key: Seq<char>, value: Seq<char>) -> bool {
    &&& no_newline(value)
    &&& exists|left: Seq<char>, right: Seq<char>|
        all_space(left) && all_space(right) && line == #[trigger] assignment(
            key,
            left,
            right,
            value,
        )
}

/// The value that `line` gives to `key`, if it gives one.
pub open spec fn key_value(key: Seq<char>, line: Seq<char>) -> Option<Seq<char>> {
    if exists|value: Seq<char>| assigns(line, key, value) {
        Some(choose|value: Seq<char>| assigns(line, key, value))
    } else {
        None
    }
}

/// The file name of a wheel: four dashes or more, and after the last of them the platform.
pub open spec fn wheel_pattern() -> Seq<char> {
    "^.*-.*-.*-.*-(.*).whl$"@
}

/// How many dashes `text` holds.
pub open spec fn dashes(text: Seq<char>) -> nat {
    text.filter(|c: char| c == '-').len()
}

/// The part of a wheel's file name that names the platform: what stands between the
/// last dash and the extension, in a one-line name with at least four dashes before the
/// extension. The extension is `whl` with any one character before it.
pub open spec fn wheel_platform(filename: Seq<char>) -> Option<Seq<char>> {
    let stem = filename.take(filename.len() - 4);
    if filename.len() >= 4 && no_newline(filename) && "whl"@.is_suffix_of(filename) && dashes(
        stem,
    ) >= 4 {
        Some(stem.skip(stem.index_of_last('-')->0 + 1))
    } else {
        None
    }
}

/// The metadata folder of an installed wheel.
pub open spec fn dist_info_pattern() -> Seq<char> {
    "^(.*?)-(.*?)\\.dist-info$"@
}

/// The metadata folder of an installed egg.
pub open spec fn egg_info_pattern() -> Seq<char> {
    "^(.*?)-(.*?)\\.egg-info$"@
}

/// The name and the version that a metadata folder's name holds: what stands before the
/// first dash, and what stands between that dash and `suffix`, which ends the name.
pub open spec fn split_info(folder: Seq<char>, suffix: Seq<char>) -> Option<(Seq<char>, Seq<char>)> {
    let end = folder.len() - suffix.len();
    match folder.index_of_first('-') {
        Some(dash) => if no_newline(folder) && suffix.is_suffix_of(folder) && dash < end {
            Some((folder.take(dash), folder.subrange(dash + 1, end)))
        } else {
            None
        },
        None => None,
    }
}

/// The name and the version in the name of a metadata folder, of a wheel or of an egg.
pub open spec fn info_of_folder(folder: Seq<char>) -> Option<(Seq<char>, Seq<char>)> {
    match split_info(folder, ".dist-info"@) {
        Some(split) => Some(split),
        None => split_info(folder, ".egg-info"@),
    }
}

/// Whether `regex_captures` knows `pattern`.
pub open spec fn has_groups(pattern: Seq<char>) -> bool {
    ||| pattern == wheel_pattern()
    ||| pattern == dist_info_pattern()
    ||| pattern == egg_info_pattern()
    ||| exists|key: Seq<char>| is_plain_key(key) && pattern == #[trigger] key_pattern(key)
}

/// The groups of a match that covers `text` and has one group, if there is a match.
pub open spec fn one_group(text: Seq<char>, group: Option<Seq<char>>) -> Option<
    Seq<Option<Seq<char>>>,
> {
    match group {
        Some(first) => Some(seq![Some(text), Some(first)]),
        None => None,
    }
}

/// The groups of a match that covers `text` and has two groups, if there is a match.
pub open spec fn two_groups(text: Seq<char>, groups: Option<(Seq<char>, Seq<char>)>) -> Option<
    Seq<Option<Seq<char>>>,
> {
    match groups {
        Some((first, second)) => Some(seq![Some(text), Some(first), Some(second)]),
        None => None,
    }
}

/// Calls `regex::Regex::new` and `regex::Regex::is_match`. Claimed of them: the table
/// header pattern compiles, and it matches exactly the texts that hold a `[` and later
/// a `]` with no line feed between.
#[verifier::external_body]
fn regex_is_match(pattern: &str, text: &str) -> (found: bool)
    requires
        pattern@ == section_pattern(),
    ensures
        found == has_bracket_pair(text@),
{
    regex::Regex::new(pattern).unwrap().is_match(text)
}

/// Calls `regex::Regex::new` and `regex::Regex::captures`, and hands out all groups,
/// the whole match first. Claimed of them, for the patterns that `has_groups` admits:
/// the pattern compiles, staying within the default size limit; being anchored at both ends, it matches the whole text or
/// nothing; every group takes part in a match. The group of a key pattern is the quoted
/// value; that of the wheel pattern, whose repetitions are greedy, starts after the last
/// dash; the first group of a metadata pattern, whose repetitions are lazy, ends before
/// the first dash.
#[verifier::external_body]
fn regex_captures(pattern: &str, text: &str) -> (groups: Option<Vec<Option<String>>>)
    requires
        has_groups(pattern@),
    ensures
        forall|key: Seq<char>|
            is_plain_key(key) && pattern@ == #[trigger] key_pattern(key) ==> groups.deep_view()
                == one_group(text@, key_value(key, text@)),
        pattern@ == wheel_pattern() ==> groups.deep_view() == one_group(
            text@,
            wheel_platform(text@),
        ),
        pattern@ == dist_info_pattern() ==> groups.deep_view() == two_groups(
            text@,
            split_info(text@, ".dist-info"@),
        ),
        pattern@ == egg_info_pattern() ==> groups.deep_view() == two_groups(
            text@,
            split_info(text@, ".egg-info"@),
        ),
{
    let re = regex::Regex::new(pattern).unwrap();
    let caps = re.captures(text)?;
    Some(caps.iter().map(|group| group.map(|m| m.as_str().to_string())).collect())
}

/// Whether `line` is taken for a table header.
pub fn is_section_header(line: &str) -> (header: bool)
    ensures
        header == has_bracket_pair(line@),
{
    regex_is_match("\\[.*\\]", line)
}

/// The pattern of a line that gives `key` a quoted value.
pub fn key_re(key: &str) -> (pattern: String)
    ensures
        pattern@ == key_pattern(key@),
{
    let mut pattern = "^".to_owned();
    pattern.append(key);
    pattern.append("\\s*=\\s*\"(.*)\"$");
    pattern
}

/// The value that `line` gives to `key`, if it gives one.
pub fn value_of_key(key: &str, line: &str) -> (value: Option<String>)
    requires
        is_plain_key(key@),
    ensures
        value.deep_view() == key_value(key@, line@),
{
    let pattern = key_re(key);
    let groups = regex_captures(pattern.as_str(), line);
    group_at(&groups, 1)
}

/// Group `at` of a match.
fn group_at(groups: &Option<Vec<Option<String>>>, at: usize) -> (group: Option<String>)
    requires
        groups.deep_view() matches Some(all) ==> at < all.len(),
    ensures
        group.deep_view() == (match groups.deep_view() {
            Some(all) => all[at as int],
            None => None,
        }),
{
    match groups {
        Some(all) => {
            assert(groups.deep_view()->0[at as int] == all@[at as int].deep_view());
            all[at].clone()
        },
        None => None,
    }
}

/// The platform in the file name of a wheel.
pub fn platform_of_wheel(filename: &str) -> (platform: Option<String>)
    ensures
        platform.deep_view() == wheel_platform(filename@),
{
    let groups = regex_captures("^.*-.*-.*-.*-(.*).whl$", filename);
    group_at(&groups, 1)
}

/// The name and the version text that a metadata folder's name holds.
pub fn name_and_version(folder: &str) -> (split: Option<(String, String)>)
    ensures
        split.deep_view() == info_of_folder(folder@),
{
    let wheel = regex_captures("^(.*?)-(.*?)\\.dist-info$", folder);
    let groups = if wheel.is_some() {
        wheel
    } else {
        regex_captures("^(.*?)-(.*?)\\.egg-info$", folder)
    };
    let name = group_at(&groups, 1);
    let version = group_at(&groups, 2);
    match (name, version) {
        (Some(name), Some(version)) => Some((name, version)),
        _ => None,
    }
}

/// A text without brackets holds no pair of them.
pub(crate) proof fn no_open_bracket(text: Seq<char>)
    requires
        forall|i: int| 0 <= i < text.len() ==> #[trigger] text[i] != '[',
    ensures
        !has_bracket_pair(text),
{
    if has_bracket_pair(text) {
        let (i, j) = choose|i: int, j: int| #[trigger] bracket_pair_at(text, i, j);
        assert(text[i] == '[');
    }
}

/// Where the parts of an assignment stand in its line.
proof fn assignment_parts(key: Seq<char>, left: Seq<char>, right: Seq<char>, value: Seq<char>)
    ensures
        ({
            let line = assignment(key, left, right, value);
            let sign = key.len() + left.len();
            let open = sign + 1 + right.len();
            &&& line.len() == open + 1 + value.len() + 1
            &&& forall|i: int| 0 <= i < key.len() ==> line[i] == key[i]
            &&& forall|i: int| 0 <= i < left.len() ==> line[key.len() + i] == left[i]
            &&& line[sign as int] == '='
            &&& forall|i: int| 0 <= i < right.len() ==> line[sign + 1 + i] == right[i]
            &&& line[open as int] == '"'
            &&& forall|i: int| 0 <= i < value.len() ==> line[open + 1 + i] == value[i]
        }),
{
}

/// A line gives a key at most one value: where it gives two, they are the same.
pub proof fn value_is_unique(
    line: Seq<char>,
    key: Seq<char>,
    one: Seq<char>,
    other: Seq<char>,
)
    requires
        assigns(line, key, one),
        assigns(line, key, other),
    ensures
        one == other,
{
    let (l1, r1) = choose|left: Seq<char>, right: Seq<char>|
        all_space(left) && all_space(right) && line == #[trigger] assignment(key, left, right, one);
    let (l2, r2) = choose|left: Seq<char>, right: Seq<char>|
        all_space(left) && all_space(right) && line == #[trigger] assignment(
            key,
            left,
            right,
            other,
        );
    assignment_parts(key, l1, r1, one);
    assignment_parts(key, l2, r2, other);
    if l1.len() < l2.len() {
        assert(is_space(l2[l1.len() as int]));
    } else if l2.len() < l1.len() {
        assert(is_space(l1[l2.len() as int]));
    }
    if r1.len() < r2.len() {
        assert(is_space(r2[r1.len() as int]));
    } else if r2.len() < r1.len() {
        assert(is_space(r1[r2.len() as int]));
    }
    let open = key.len() + l1.len() + 1 + r1.len();
    assert forall|i: int| 0 <= i < one.len() implies one[i] == other[i] by {
        assert(line[open + 1 + i] == one[i]);
        assert(line[open + 1 + i] == other[i]);
    }
    assert(one =~= other);
}

/// What a line with a quoted value gives to its key is that value.
pub proof fn assignment_is_read_back(
    key: Seq<char>,
    left: Seq<char>,
    right: Seq<char>,
    value: Seq<char>,
)
    requires
        all_space(left),
        all_space(right),
        no_newline(value),
    ensures
        key_value(key, assignment(key, left, right, value)) == Some(value),
{
    let line = assignment(key, left, right, value);
    assert(assigns(line, key, value));
    let found = choose|found: Seq<char>| assigns(line, key, found);
    value_is_unique(line, key, value, found);
}

/// A line without an equals sign gives no key a value.
pub proof fn no_value_without_sign(line: Seq<char>, key: Seq<char>)
    requires
        !line.contains('='),
    ensures
        key_value(key, line) is None,
{
    if key_value(key, line) is Some {
        let value = choose|value: Seq<char>| assigns(line, key, value);
        let (left, right) = choose|left: Seq<char>, right: Seq<char>|
            all_space(left) && all_space(right) && line == #[trigger] assignment(
                key,
                left,
                right,
                value,
            );
        assignment_parts(key, left, right, value);
        assert(line[(key.len() + left.len()) as int] == '=');
    }
}

/// A line gives a value to one key at most.
pub proof fn key_is_unique(line: Seq<char>, one: Seq<char>, other: Seq<char>)
    requires
        all_word(one),
        all_word(other),
        key_value(one, line) is Some,
        key_value(other, line) is Some,
    ensures
        one == other,
{
    let v1 = choose|value: Seq<char>| assigns(line, one, value);
    let v2 = choose|value: Seq<char>| assigns(line, other, value);
    let (l1, r1) = choose|left: Seq<char>, right: Seq<char>|
        all_space(left) && all_space(right) && line == #[trigger] assignment(one, left, right, v1);
    let (l2, r2) = choose|left: Seq<char>, right: Seq<char>|
        all_space(left) && all_space(right) && line == #[trigger] assignment(
            other,
            left,
            right,
            v2,
        );
    assignment_parts(one, l1, r1, v1);
    assignment_parts(other, l2, r2, v2);
    assert(!is_word(line[one.len() as int])) by {
        if l1.len() > 0 {
            assert(line[one.len() + 0int] == l1[0]);
        }
    }
    assert(!is_word(line[other.len() as int])) by {
        if l2.len() > 0 {
            assert(line[other.len() + 0int] == l2[0]);
        }
    }
    if one.len() < other.len() {
        assert(is_word(other[one.len() as int]));
    } else if other.len() < one.len() {
        assert(is_word(one[other.len() as int]));
    }
    assert forall|i: int| 0 <= i < one.len() implies one[i] == other[i] by {
        assert(line[i] == one[i]);
        assert(line[i] == other[i]);
    }
    assert(one =~= other);
}

/// Two texts together hold the dashes of both.
proof fn dashes_of_both(a: Seq<char>, b: Seq<char>)
    ensures
        dashes(a + b) == dashes(a) + dashes(b),
{
    Seq::filter_distributes_over_add(a, b, |c: char| c == '-');
}

/// A dash holds one dash.
proof fn dashes_of_dash()
    ensures
        dashes(seq!['-']) == 1,
{
    reveal(Seq::filter);
    let dash = seq!['-'];
    assert(dash.drop_last() =~= Seq::empty());
    assert(Seq::<char>::empty().filter(|c: char| c == '-') =~= Seq::empty());
}

/// The name of a wheel has the form "name-version-pythonversion-?-os": what stands last,
/// and holds no dash, is the platform.
pub proof fn wheel_name_is_read(
    name: Seq<char>,
    version: Seq<char>,
    python: Seq<char>,
    abi: Seq<char>,
    platform: Seq<char>,
)
    requires
        no_newline(name) && no_newline(version) && no_newline(python) && no_newline(abi),
        no_newline(platform) && !platform.contains('-'),
    ensures
        wheel_platform(
            name + seq!['-'] + version + seq!['-'] + python + seq!['-'] + abi + seq!['-'] + platform
                + ".whl"@,
        ) == Some(platform),
{
    reveal_strlit("whl");
    reveal_strlit(".whl");
    let dash = seq!['-'];
    let front = name + dash + version + dash + python + dash + abi;
    let stem = front + dash + platform;
    let filename = stem + ".whl"@;
    assert(filename.take(filename.len() - 4) =~= stem);
    assert(filename.subrange(filename.len() - 3, filename.len() as int) =~= "whl"@);
    dashes_of_dash();
    dashes_of_both(front + dash, platform);
    dashes_of_both(front, dash);
    dashes_of_both(name + dash + version + dash + python + dash, abi);
    dashes_of_both(name + dash + version + dash + python, dash);
    dashes_of_both(name + dash + version + dash, python);
    dashes_of_both(name + dash + version, dash);
    dashes_of_both(name + dash, version);
    dashes_of_both(name, dash);
    assert(stem[front.len() as int] == '-');
    stem.index_of_last_ensures('-');
    let last = stem.index_of_last('-')->0;
    assert(stem.contains('-'));
    if last > front.len() {
        assert(platform[last - front.len() - 1] == '-');
        assert(platform.contains('-'));
    }
    assert(stem.skip(last + 1) =~= platform);
    assert(no_newline(filename));
}

/// The name of a metadata folder has the form "name-version.suffix": it gives back the name,
/// which holds no dash, and the version.
proof fn info_is_split(name: Seq<char>, version: Seq<char>, suffix: Seq<char>)
    requires
        no_newline(name) && !name.contains('-'),
        no_newline(version),
        no_newline(suffix),
    ensures
        split_info(name + seq!['-'] + version + suffix, suffix) == Some((name, version)),
{
    let folder = name + seq!['-'] + version + suffix;
    let end = folder.len() - suffix.len();
    folder.index_of_first_ensures('-');
    assert(folder[name.len() as int] == '-');
    assert(folder.contains('-'));
    let dash = folder.index_of_first('-')->0;
    if dash < name.len() {
        assert(name[dash] == '-');
        assert(name.contains('-'));
    }
    assert(folder.subrange(end as int, folder.len() as int) =~= suffix);
    assert(folder.take(dash) =~= name);
    assert(folder.subrange(dash + 1, end as int) =~= version);
    assert(no_newline(folder));
}

/// The name of a metadata folder, of a wheel or of an egg, gives back the package's name,
/// which holds no dash, and its version.
pub proof fn metadata_folder_is_read(name: Seq<char>, version: Seq<char>)
    requires
        no_newline(name) && !name.contains('-'),
        no_newline(version),
    ensures
        info_of_folder(name + seq!['-'] + version + ".dist-info"@) == Some((name, version)),
        info_of_folder(name + seq!['-'] + version + ".egg-info"@) == Some((name, version)),
{
    reveal_strlit(".dist-info");
    reveal_strlit(".egg-info");
    info_is_split(name, version, ".dist-info"@);
    info_is_split(name, version, ".egg-info"@);
    let egg = name + seq!['-'] + version + ".egg-info"@;
    if ".dist-info"@.is_suffix_of(egg) {
        assert(egg.subrange(egg.len() - 10, egg.len() as int)[4] == ".dist-info"@[4]);
        assert(egg[egg.len() - 6] == 'g');
    }
}

/// The patterns are these texts.
pub proof fn patterns_are_spelled_out(key: &str, pattern: String)
    requires
        call_ensures(key_re, (key,), pattern),
    ensures
        pattern@ == "^"@ + key@ + "\\s*=\\s*\"(.*)\"$"@,
        section_pattern() == "\\[.*\\]"@,
        wheel_pattern() == "^.*-.*-.*-.*-(.*).whl$"@,
        dist_info_pattern() == "^(.*?)-(.*?)\\.dist-info$"@,
        egg_info_pattern() == "^(.*?)-(.*?)\\.egg-info$"@,
{
}

/// A line is taken for a table header exactly if it holds an opening and, behind it, a
/// closing bracket, with no line feed between them; what stands around them plays no part.
pub proof fn headers_hold_brackets(
    line: &str,
    before: Seq<char>,
    inside: Seq<char>,
    after: Seq<char>,
    header: bool,
)
    requires
        call_ensures(is_section_header, (line,), header),
    ensures
        line@ == before + seq!['['] + inside + seq![']'] + after && !inside.contains('\n')
            ==> header,
        header ==> exists|b: Seq<char>, i: Seq<char>, a: Seq<char>|
            line@ == #[trigger] (b + seq!['['] + i + seq![']'] + a) && !i.contains('\n'),
{
    let text = line@;
    if text == before + seq!['['] + inside + seq![']'] + after && !inside.contains('\n') {
        let i = before.len() as int;
        let j = i + 1 + inside.len();
        assert(no_newline(text.subrange(i, j))) by {
            assert forall|k: int| 0 <= k < j - i implies #[trigger] text.subrange(i, j)[k]
                != '\n' by {
                if k > 0 {
                    assert(text[i + k] == inside[k - 1]);
                    assert(inside.contains(inside[k - 1]));
                }
            }
        }
        assert(bracket_pair_at(text, i, j));
    }
    if header {
        let (i, j) = choose|i: int, j: int| #[trigger] bracket_pair_at(text, i, j);
        let b = text.take(i);
        let m = text.subrange(i + 1, j);
        let a = text.skip(j + 1);
        assert(text =~= b + seq!['['] + m + seq![']'] + a);
        assert(!m.contains('\n')) by {
            if m.contains('\n') {
                let k = choose|k: int| 0 <= k < m.len() && m[k] == '\n';
                assert(text.subrange(i, j)[k + 1] == '\n');
            }
        }
    }
}

/// A line gives a key a value exactly if it consists of the key, an equals sign with nothing
/// but white space around it, and the value between quotes; and the value is then all that
/// stands between the first of these quotes and the end quote.
pub proof fn keys_are_given_quoted_values(
    key: &str,
    line: &str,
    left: Seq<char>,
    right: Seq<char>,
    quoted: Seq<char>,
    value: Option<String>,
)
    requires
        call_ensures(value_of_key, (key, line), value),
    ensures
        line@ == key@ + left + seq!['='] + right + seq!['"'] + quoted + seq!['"'] && all_space(left)
            && all_space(right) && !quoted.contains('\n') ==> (value matches Some(v) && v@
            == quoted),
        value matches Some(v) ==> !v@.contains('\n') && exists|l: Seq<char>, r: Seq<char>|
            line@ == #[trigger] (key@ + l + seq!['='] + r + seq!['"'] + v@ + seq!['"'])
                && all_space(l) && all_space(r),
{
    if line@ == key@ + left + seq!['='] + right + seq!['"'] + quoted + seq!['"'] && all_space(left)
        && all_space(right) && !quoted.contains('\n') {
        assert(no_newline(quoted)) by {
            assert forall|k: int| 0 <= k < quoted.len() implies #[trigger] quoted[k] != '\n' by {
                assert(quoted.contains(quoted[k]));
            }
        }
        assert(line@ == assignment(key@, left, right, quoted));
        assignment_is_read_back(key@, left, right, quoted);
    }
    if let Some(v) = value {
        assert(assigns(line@, key@, v@));
        let (l, r) = choose|l: Seq<char>, r: Seq<char>|
            all_space(l) && all_space(r) && line@ == #[trigger] assignment(key@, l, r, v@);
        assert(line@ == key@ + l + seq!['='] + r + seq!['"'] + v@ + seq!['"']);
    }
}

/// Splits a text that holds a dash at the last of them.
proof fn last_dash_splits(text: Seq<char>) -> (parts: (Seq<char>, Seq<char>))
    requires
        dashes(text) >= 1,
    ensures
        text == parts.0 + seq!['-'] + parts.1,
        !parts.1.contains('-'),
        dashes(parts.0) == dashes(text) - 1,
        parts.1 == text.skip(text.index_of_last('-')->0 + 1),
{
    if !text.contains('-') {
        let kept = text.filter(|c: char| c == '-');
        text.lemma_filter_pred(|c: char| c == '-', 0);
        text.lemma_filter_contains_rev(|c: char| c == '-', kept[0]);
    }
    text.index_of_last_ensures('-');
    let last = text.index_of_last('-')->0;
    let front = text.take(last);
    let tail = text.skip(last + 1);
    assert(text =~= front + seq!['-'] + tail);
    assert(!tail.contains('-')) by {
        if tail.contains('-') {
            let k = choose|k: int| 0 <= k < tail.len() && tail[k] == '-';
            assert(text[last + 1 + k] == '-');
        }
    }
    dashes_of_both(front + seq!['-'], tail);
    dashes_of_both(front, seq!['-']);
    dashes_of_dash();
    let in_tail = tail.filter(|c: char| c == '-');
    if in_tail.len() > 0 {
        tail.lemma_filter_pred(|c: char| c == '-', 0);
        tail.lemma_filter_contains_rev(|c: char| c == '-', in_tail[0]);
    }
    (front, tail)
}

/// The platform in the name of a wheel is what stands, free of dashes, between the last of
/// four dashes or more and the extension `whl`, which any one character separates from it; a
/// name without these parts, or with a line feed in it, names no platform.
pub proof fn wheels_name_their_platform_last(
    filename: &str,
    name: Seq<char>,
    version: Seq<char>,
    python: Seq<char>,
    abi: Seq<char>,
    os: Seq<char>,
    dot: char,
    platform: Option<String>,
)
    requires
        call_ensures(platform_of_wheel, (filename,), platform),
    ensures
        filename@ == name + seq!['-'] + version + seq!['-'] + python + seq!['-'] + abi + seq!['-']
            + os + seq![dot] + "whl"@ && !os.contains('-') && !filename@.contains('\n') ==> (
        platform matches Some(p) && p@ == os),
        platform matches Some(p) ==> !p@.contains('-') && !filename@.contains('\n') && exists|
            n: Seq<char>,
            v: Seq<char>,
            y: Seq<char>,
            a: Seq<char>,
            d: char,
        |
            filename@ == #[trigger] (n + seq!['-'] + v + seq!['-'] + y + seq!['-'] + a + seq!['-']
                + p@ + seq![d] + "whl"@),
{
    reveal_strlit("whl");
    let file = filename@;
    assert(!file.contains('\n') ==> no_newline(file)) by {
        if !file.contains('\n') {
            assert forall|k: int| 0 <= k < file.len() implies #[trigger] file[k] != '\n' by {
                assert(file.contains(file[k]));
            }
        }
    }
    let dash = seq!['-'];
    let stem = file.take(file.len() - 4);
    if file == name + dash + version + dash + python + dash + abi + dash + os + seq![dot] + "whl"@
        && !os.contains('-') && !file.contains('\n') {
        let front = name + dash + version + dash + python + dash + abi;
        assert(stem =~= front + dash + os);
        assert(file.subrange(file.len() - 3, file.len() as int) =~= "whl"@);
        dashes_of_dash();
        dashes_of_both(front + dash, os);
        dashes_of_both(front, dash);
        dashes_of_both(name + dash + version + dash + python + dash, abi);
        dashes_of_both(name + dash + version + dash + python, dash);
        dashes_of_both(name + dash + version + dash, python);
        dashes_of_both(name + dash + version, dash);
        dashes_of_both(name + dash, version);
        dashes_of_both(name, dash);
        stem.index_of_last_ensures('-');
        assert(stem[front.len() as int] == '-');
        assert(stem.contains('-'));
        let last = stem.index_of_last('-')->0;
        if last > front.len() {
            assert(os[last - front.len() - 1] == '-');
            assert(os.contains('-'));
        }
        assert(stem.skip(last + 1) =~= os);
    }
    if let Some(p) = platform {
        let (f1, p1) = last_dash_splits(stem);
        let (f2, a) = last_dash_splits(f1);
        let (f3, y) = last_dash_splits(f2);
        let (n, v) = last_dash_splits(f3);
        let d = file[file.len() - 4];
        assert(p1 == p@);
        assert(file =~= stem + seq![d] + file.subrange(file.len() - 3, file.len() as int));
        assert(file =~= n + dash + v + dash + y + dash + a + dash + p@ + seq![d] + "whl"@);
        assert(!file.contains('\n'));
    }
}

/// The metadata folder of a package, of a wheel or of an egg, gives the package's name, which
/// ends before the first dash, and its version, which reaches up to the suffix. No other
/// folder gives any.
pub proof fn metadata_folders_name_package_and_version(
    folder: &str,
    name: Seq<char>,
    version: Seq<char>,
    split: Option<(String, String)>,
)
    requires
        call_ensures(name_and_version, (folder,), split),
    ensures
        (folder@ == name + seq!['-'] + version + ".dist-info"@ || folder@ == name + seq!['-']
            + version + ".egg-info"@) && !name.contains('-') && !folder@.contains('\n') ==> (
        split matches Some(s) && s.0@ == name && s.1@ == version),
        split matches Some(s) ==> !s.0@.contains('-') && !folder@.contains('\n') && (folder@
            == s.0@ + seq!['-'] + s.1@ + ".dist-info"@ || folder@ == s.0@ + seq!['-'] + s.1@
            + ".egg-info"@),
{
    let all = folder@;
    if (all == name + seq!['-'] + version + ".dist-info"@ || all == name + seq!['-'] + version
        + ".egg-info"@) && !name.contains('-') && !all.contains('\n') {
        assert(forall|k: int| 0 <= k < all.len() ==> all.contains(#[trigger] all[k]));
        assert(no_newline(name)) by {
            assert(forall|k: int| 0 <= k < name.len() ==> #[trigger] name[k] == all[k]);
        }
        assert(no_newline(version)) by {
            assert(forall|k: int|
                0 <= k < version.len() ==> #[trigger] version[k] == all[name.len() + 1 + k]);
        }
        metadata_folder_is_read(name, version);
    }
    if let Some(s) = split {
        all.index_of_first_ensures('-');
        let dash = all.index_of_first('-')->0;
        assert(!s.0@.contains('-'));
        assert(!all.contains('\n'));
        let suffix = if split_info(all, ".dist-info"@) is Some {
            ".dist-info"@
        } else {
            ".egg-info"@
        };
        let end = all.len() - suffix.len();
        assert(all.subrange(end as int, all.len() as int) == suffix);
        assert(all =~= all.take(dash) + seq!['-'] + all.subrange(dash + 1, end as int)
            + all.subrange(end as int, all.len() as int));
    }
}

} // verus!
