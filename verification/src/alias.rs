//! Finding the command that runs Python.

use crate::config::add_line;
use crate::text::{decimal, decimal_text};
use crate::version::{is_version_text, Version};
use vstd::prelude::*;
use vstd::string::StrSliceExecFns;
use vstd::string::StringExecFns;

verus! {

/// Why no command that runs Python can be named.
#[derive(Debug)]
pub struct AliasError {
    pub details: String,
}

impl AliasError {
    /// The details of the error.
    pub fn description(&self) -> (text: &str)
        ensures
            text@ == self.details@,
    {
        self.details.as_str()
    }
}

/// The commands that may run Python, in the order in which they are tried.
pub open spec fn alias_names() -> Seq<Seq<char>> {
    seq![
        "python3.10"@,
        "python3.9"@,
        "python3.8"@,
        "python3.7"@,
        "python3.6"@,
        "python3.5"@,
        "python3.4"@,
        "python3.3"@,
        "python3.2"@,
        "python3.1"@,
        "python3"@,
        "python"@,
        "python2"@,
    ]
}

/// The commands that may run Python, in the order in which they are tried.
pub fn possible_aliases() -> (names: Vec<String>)
    ensures
        names.deep_view() == alias_names(),
{
    let mut names: Vec<String> = Vec::new();
    add_line(&mut names, "python3.10".to_owned());
    add_line(&mut names, "python3.9".to_owned());
    add_line(&mut names, "python3.8".to_owned());
    add_line(&mut names, "python3.7".to_owned());
    add_line(&mut names, "python3.6".to_owned());
    add_line(&mut names, "python3.5".to_owned());
    add_line(&mut names, "python3.4".to_owned());
    add_line(&mut names, "python3.3".to_owned());
    add_line(&mut names, "python3.2".to_owned());
    add_line(&mut names, "python3.1".to_owned());
    add_line(&mut names, "python3".to_owned());
    add_line(&mut names, "python".to_owned());
    add_line(&mut names, "python2".to_owned());
    assert(names.deep_view() =~= alias_names());
    names
}

/// The commands among `names` that answered with a version, in order.
pub open spec fn answering(names: Seq<Seq<char>>, versions: Seq<Option<Version>>) -> Seq<
    (Seq<char>, Version),
>
    decreases names.len(),
{
    if names.len() == 0 || versions.len() == 0 {
        Seq::empty()
    } else {
        let rest = answering(names.drop_last(), versions.drop_last());
        match versions.last() {
            Some(version) => rest.push((names.last(), version)),
            None => rest,
        }
    }
}

/// The command to use, or the commands to choose from.
#[derive(Debug)]
pub enum AliasChoice {
    /// One command answered.
    Only(String, Version),
    /// Two or more commands answered, in the order in which they were tried.
    Several(Vec<(String, Version)>),
}

/// Makes an educated guess at the command that runs Python on this system, from what
/// version each of the possible commands answered with, if it answered.
pub fn find_py_alias(versions: &Vec<Option<Version>>) -> (choice: Result<AliasChoice, AliasError>)
    requires
        versions@.len() == alias_names().len(),
    ensures
        ({
            let found = answering(alias_names(), versions@);
            match choice {
                Ok(AliasChoice::Only(name, version)) => found == seq![(name@, version)],
                Ok(AliasChoice::Several(all)) => found.len() >= 2 && all.deep_view() == found,
                Err(error) => found.len() == 0 && error.details@
                    == "Can't find Python on the path."@,
            }
        }),
{
    let names = possible_aliases();
    let mut found: Vec<(String, Version)> = Vec::new();
    let ghost all = alias_names();
    assert(found.deep_view() =~= answering(all.take(0), versions@.take(0)));
    for i in 0..names.len()
        invariant
            all == names.deep_view(),
            versions@.len() == all.len(),
            found.deep_view() == answering(all.take(i as int), versions@.take(i as int)),
    {
        assert(all.take(i + 1).drop_last() =~= all.take(i as int));
        assert(versions@.take(i + 1).drop_last() =~= versions@.take(i as int));
        let ghost before = found.deep_view();
        if let Some(version) = versions[i] {
            found.push((names[i].clone(), version));
            assert(found.deep_view() =~= before.push((all[i as int], version)));
        }
    }
    assert(all.take(all.len() as int) =~= all);
    assert(versions@.take(all.len() as int) =~= versions@);
    if found.len() == 0 {
        return Err(AliasError { details: "Can't find Python on the path.".to_owned() });
    }
    if found.len() == 1 {
        assert(found.deep_view() =~= seq![found@[0].deep_view()]);
        return Ok(AliasChoice::Only(found[0].0.clone(), found[0].1));
    }
    Ok(AliasChoice::Several(found))
}

/// The line that offers the command numbered `number`.
pub open spec fn offer(number: nat, name: Seq<char>, version: Seq<char>) -> Seq<char> {
    decimal(number) + ": "@ + name + " version: "@ + version
}

/// Whether `line` offers `alias` under `number`, with its version as `show` can write it.
pub open spec fn is_offer<F: Fn(&Version) -> String>(
    show: F,
    number: nat,
    alias: (String, Version),
    line: Seq<char>,
) -> bool {
    exists|shown: Seq<char>|
        is_version_text(show, alias.1, shown) && line == #[trigger] offer(
            number,
            alias.0@,
            shown,
        )
}

/// The lines that offer `aliases`, numbered from one, with their versions as `show_version`
/// writes them out.
pub fn alias_offers<F: Fn(&Version) -> String>(
    aliases: &Vec<(String, Version)>,
    show_version: F,
) -> (lines: Vec<String>)
    requires
        forall|v: &Version| call_requires(show_version, (v,)),
        aliases@.len() < u64::MAX,
    ensures
        lines@.len() == aliases@.len(),
        forall|i: int|
            0 <= i < lines@.len() ==> is_offer(
                show_version,
                (i + 1) as nat,
                aliases@[i],
                (#[trigger] lines@[i])@,
            ),
{
    let mut lines: Vec<String> = Vec::new();
    for i in 0..aliases.len()
        invariant
            forall|v: &Version| call_requires(show_version, (v,)),
            aliases@.len() < u64::MAX,
            lines@.len() == i,
            forall|k: int|
                0 <= k < i ==> is_offer(
                    show_version,
                    (k + 1) as nat,
                    aliases@[k],
                    (#[trigger] lines@[k])@,
                ),
    {
        let shown = show_version(&aliases[i].1);
        let mut line = decimal_text(i as u64 + 1);
        line.append(": ");
        line.append(aliases[i].0.as_str());
        line.append(" version: ");
        line.append(shown.as_str());
        assert(is_version_text(show_version, aliases@[i as int].1, shown@));
        assert(line@ =~= offer((i + 1) as nat, aliases@[i as int].0@, shown@));
        lines.push(line);
    }
    lines
}

/// Why an answer chooses no command.
#[derive(Copy, Clone, Debug, PartialEq, Eq, Structural)]
pub enum PromptError {
    /// There is no answer.
    NoInput,
    /// The answer does not begin with a digit.
    NotANumber,
    /// No command has that number.
    NotInList,
}

impl PromptError {
    /// What to tell the user.
    pub fn message(&self) -> (text: &'static str)
        ensures
            text@ == (match *self {
                PromptError::NoInput => "Problem reading input"@,
                PromptError::NotANumber => "Enter the number associated with the Python alias."@,
                PromptError::NotInList => "Can't find the Python alias associated with that number. Is it in the list above?"@,
            }),
    {
        match self {
            PromptError::NoInput => "Problem reading input",
            PromptError::NotANumber => "Enter the number associated with the Python alias.",
            PromptError::NotInList => "Can't find the Python alias associated with that number. Is it in the list above?",
        }
    }
}

/// The number that an answer gives: its first character, where that is a digit.
pub open spec fn answered(input: Seq<char>) -> Option<int> {
    if input.len() > 0 && '0' <= input[0] <= '9' {
        Some(input[0] as int - '0' as int)
    } else {
        None
    }
}

/// The command that the user chose from `aliases`, which were offered numbered from one.
/// Only the first character of the answer counts.
pub fn prompt_alias(aliases: &Vec<(String, Version)>, input: &str) -> (chosen: Result<
    (String, Version),
    PromptError,
>)
    ensures
        match chosen {
            Ok(alias) => answered(input@) matches Some(n) && 1 <= n <= aliases@.len()
                && alias.deep_view() == aliases@[n - 1].deep_view(),
            Err(PromptError::NoInput) => input@.len() == 0,
            Err(PromptError::NotANumber) => input@.len() > 0 && answered(input@) is None,
            Err(PromptError::NotInList) => answered(input@) matches Some(n) && !(1 <= n
                <= aliases@.len()),
        },
{
    if input.is_empty() {
        return Err(PromptError::NoInput);
    }
    let first = input.get_char(0);
    if !('0' <= first && first <= '9') {
        return Err(PromptError::NotANumber);
    }
    let number: usize = (first as u32 - '0' as u32) as usize;
    if number == 0 || number > aliases.len() {
        return Err(PromptError::NotInList);
    }
    let (name, version) = &aliases[number - 1];
    Ok((name.clone(), *version))
}

/// Answering with the number under which a command was offered chooses that command, up to
/// the last number of one digit.
pub proof fn offered_number_is_understood(number: nat)
    requires
        number <= 9,
    ensures
        answered(decimal(number)) == Some(number as int),
{
}

/// Only the first character of an answer counts: what follows it changes nothing.
pub proof fn only_the_first_character_counts(
    aliases: &Vec<(String, Version)>,
    short: &str,
    long: &str,
    to_short: Result<(String, Version), PromptError>,
    to_long: Result<(String, Version), PromptError>,
)
    requires
        call_ensures(prompt_alias, (aliases, short), to_short),
        call_ensures(prompt_alias, (aliases, long), to_long),
        short@.len() > 0,
        short@.is_prefix_of(long@),
    ensures
        match (to_short, to_long) {
            (Ok(a), Ok(b)) => a.0@ == b.0@ && a.1 == b.1,
            (Err(a), Err(b)) => a == b,
            _ => false,
        },
{
    assert(short@[0] == long@[0]);
}

/// An answer that begins with the number of one digit under which a command was offered
/// chooses that command, whatever follows the number.
pub proof fn offered_number_chooses(
    aliases: &Vec<(String, Version)>,
    number: int,
    input: &str,
    chosen: Result<(String, Version), PromptError>,
)
    requires
        call_ensures(prompt_alias, (aliases, input), chosen),
        1 <= number <= 9,
        number <= aliases@.len(),
        input@.len() > 0,
        input@[0] as int == '0' as int + number,
    ensures
        chosen matches Ok(alias) && alias.0@ == aliases@[number - 1].0@ && alias.1
            == aliases@[number - 1].1,
{
}

/// An answer chooses nothing where there is none, where it does not begin with a digit, and
/// where no command was offered under the digit that it begins with; and each of these is
/// told apart.
pub proof fn other_answers_choose_nothing(
    aliases: &Vec<(String, Version)>,
    input: &str,
    chosen: Result<(String, Version), PromptError>,
)
    requires
        call_ensures(prompt_alias, (aliases, input), chosen),
    ensures
        input@.len() == 0 <==> chosen == Err::<(String, Version), _>(PromptError::NoInput),
        input@.len() > 0 && !(48 <= input@[0] as int <= 57) <==> chosen == Err::<
            (String, Version),
            _,
        >(PromptError::NotANumber),
        input@.len() > 0 && 48 <= input@[0] as int <= 57 && (input@[0] as int == 48 || input@[0]
            as int - 48 > aliases@.len()) <==> chosen == Err::<(String, Version), _>(
            PromptError::NotInList,
        ),
{
}

/// The commands of the ten minor versions of Python 3 are tried first, from the newest to the
/// oldest, and then those that name no minor version.
pub proof fn newest_python_is_tried_first(names: Vec<String>)
    requires
        call_ensures(possible_aliases, (), names),
    ensures
        names@.len() == 13,
        forall|minor: nat|
            1 <= minor <= 10 ==> (#[trigger] names@[10 - minor])@ == "python3."@ + decimal(minor),
        names@[10]@ == "python3"@,
        names@[11]@ == "python"@,
        names@[12]@ == "python2"@,
{
    assert(names.deep_view().len() == 13);
    assert forall|i: int| 0 <= i < 13 implies (#[trigger] names@[i])@ == alias_names()[i] by {
        assert(names.deep_view()[i] == names@[i]@);
    }
    reveal_strlit("python3.");
    reveal_strlit("python3.10");
    reveal_strlit("python3.9");
    reveal_strlit("python3.8");
    reveal_strlit("python3.7");
    reveal_strlit("python3.6");
    reveal_strlit("python3.5");
    reveal_strlit("python3.4");
    reveal_strlit("python3.3");
    reveal_strlit("python3.2");
    reveal_strlit("python3.1");
    reveal_with_fuel(decimal, 2);
    assert forall|minor: nat| 1 <= minor <= 10 implies (#[trigger] names@[10 - minor])@
        == "python3."@ + decimal(minor) by {
        assert(names@[10 - minor]@ =~= "python3."@ + decimal(minor));
    }
}

/// Going through names and answers one by one keeps what filtering them keeps.
proof fn answering_filters(
    names: Seq<Seq<char>>,
    versions: Seq<Option<Version>>,
    pairs: Seq<(Seq<char>, Option<Version>)>,
)
    requires
        names.len() == versions.len() == pairs.len(),
        forall|i: int| 0 <= i < pairs.len() ==> #[trigger] pairs[i] == (names[i], versions[i]),
    ensures
        ({
            let kept = pairs.filter(|pair: (Seq<char>, Option<Version>)| pair.1 is Some);
            let found = answering(names, versions);
            &&& found.len() == kept.len()
            &&& forall|k: int|
                0 <= k < found.len() ==> (#[trigger] found[k]).0 == kept[k].0 && Some(found[k].1)
                    == kept[k].1
        }),
    decreases names.len(),
{
    reveal(Seq::filter);
    if names.len() > 0 {
        answering_filters(names.drop_last(), versions.drop_last(), pairs.drop_last());
        assert(pairs.last() == (names.last(), versions.last()));
    }
}

/// The commands that answered are found, each with the version that it answered with, in the
/// order in which they are tried. One alone is taken, several are to be chosen from, and none
/// at all is an error.
pub proof fn answering_commands_are_found(
    names: Vec<String>,
    versions: &Vec<Option<Version>>,
    choice: Result<AliasChoice, AliasError>,
)
    requires
        call_ensures(possible_aliases, (), names),
        call_ensures(find_py_alias, (versions,), choice),
        versions@.len() == names@.len(),
    ensures
        ({
            let found = Seq::new(names@.len(), |i: int| (names@[i]@, versions@[i])).filter(
                |pair: (Seq<char>, Option<Version>)| pair.1 is Some,
            );
            match choice {
                Err(error) => found.len() == 0 && error.details@
                    == "Can't find Python on the path."@,
                Ok(AliasChoice::Only(name, version)) => found.len() == 1 && found[0] == (
                    name@,
                    Some(version),
                ),
                Ok(AliasChoice::Several(all)) => found.len() >= 2 && all@.len() == found.len()
                    && forall|k: int|
                    0 <= k < found.len() ==> found[k] == ((#[trigger] all@[k]).0@, Some(all@[k].1)),
            }
        }),
{
    let pairs = Seq::new(names@.len(), |i: int| (names@[i]@, versions@[i]));
    let found = answering(alias_names(), versions@);
    assert forall|i: int| 0 <= i < pairs.len() implies #[trigger] pairs[i] == (
        alias_names()[i],
        versions@[i],
    ) by {
        assert(names.deep_view()[i] == names@[i]@);
    }
    answering_filters(alias_names(), versions@, pairs);
    if let Ok(AliasChoice::Only(name, version)) = choice {
        assert(found[0] == (name@, version));
    }
    if let Ok(AliasChoice::Several(all)) = choice {
        assert forall|k: int| 0 <= k < found.len() implies found[k] == (
            (#[trigger] all@[k]).0@,
            all@[k].1,
        ) by {
            assert(all.deep_view()[k] == all@[k].deep_view());
        }
    }
}

/// The commands are offered one to a line and in order, numbered from one, each by its name
/// and its version.
pub proof fn offers_number_the_commands<F: Fn(&Version) -> String>(
    aliases: &Vec<(String, Version)>,
    show_version: F,
    lines: Vec<String>,
    i: int,
)
    requires
        call_ensures(alias_offers::<F>, (aliases, show_version), lines),
        0 <= i < aliases@.len(),
    ensures
        lines@.len() == aliases@.len(),
        exists|shown: String| #[trigger]
            call_ensures(show_version, (&aliases@[i].1,), shown) && lines@[i]@ == decimal(
                (i + 1) as nat,
            ) + ": "@ + aliases@[i].0@ + " version: "@ + shown@,
{
    assert(is_offer(show_version, (i + 1) as nat, aliases@[i], lines@[i]@));
}

/// The description of an error is its details.
pub proof fn errors_are_described_by_their_details(error: &AliasError, text: &str)
    requires
        call_ensures(AliasError::description, (error,), text),
    ensures
        text@ == error.details@,
{
}

} // verus!
