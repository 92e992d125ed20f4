//! Where the environment for a version of Python lies, and which environment to use.

use crate::text::{decimal, decimal_holds_digits, decimal_is_injective, decimal_text};
use crate::version::Version;
use vstd::prelude::*;
use vstd::string::StringExecFns;

verus! {

/// The directory for a version of Python: major and minor number, without the patch.
pub open spec fn version_dir(version: Version) -> Seq<char> {
    decimal(version.major as nat) + "."@ + decimal(version.minor as nat)
}

/// The environment for a version of Python.
#[derive(Debug)]
pub struct Environment {
    /// The version, with no regard to the patch.
    pub version: Version,
    /// The directory of the environment, among those of the project.
    pub dir: String,
}

impl Environment {
    /// The environment for `version`.
    pub fn new(version: Version) -> (environment: Environment)
        ensures
            environment.version == (Version { patch: 0, ..version }),
            environment.dir@ == version_dir(version),
    {
        let mut dir = decimal_text(version.major as u64);
        dir.append(".");
        dir.append(decimal_text(version.minor as u64).as_str());
        Environment { version: Version::new_short(version.major, version.minor), dir }
    }

    /// The directory of the packages of this environment.
    pub fn lib_dir(&self) -> (dir: String)
        ensures
            dir@ == self.dir@ + "/lib"@,
    {
        self.dir.clone().concat("/lib")
    }

    /// The directory of the virtual environment of this environment.
    pub fn venv_dir(&self) -> (dir: String)
        ensures
            dir@ == self.dir@ + "/.venv"@,
    {
        self.dir.clone().concat("/.venv")
    }
}

/// Which environment to use.
#[derive(Debug)]
pub enum EnvironmentChoice {
    /// The one that the project asks for, to be created if it does not exist.
    Configured(Environment),
    /// The only one that was found.
    Found(Environment),
    /// A new one.
    Create,
    /// More than one was found; the project has to say which.
    Ambiguous,
}

/// Chooses an environment for a project that asks for `configured`, or else from the
/// versions `found` for which an environment exists.
pub fn choose_environment(configured: Option<Version>, found: &Vec<Version>) -> (choice:
    EnvironmentChoice)
    ensures
        match choice {
            EnvironmentChoice::Configured(environment) => configured is Some
                && environment.version == (Version { patch: 0, ..configured->0 })
                && environment.dir@ == version_dir(configured->0),
            EnvironmentChoice::Found(environment) => configured is None && found@.len() == 1
                && environment.version == (Version { patch: 0, ..found@[0] }) && environment.dir@
                == version_dir(found@[0]),
            EnvironmentChoice::Create => configured is None && found@.len() == 0,
            EnvironmentChoice::Ambiguous => configured is None && found@.len() > 1,
        },
{
    match configured {
        Some(version) => EnvironmentChoice::Configured(Environment::new(version)),
        None => if found.len() == 0 {
            EnvironmentChoice::Create
        } else if found.len() == 1 {
            EnvironmentChoice::Found(Environment::new(found[0]))
        } else {
            EnvironmentChoice::Ambiguous
        },
    }
}

/// What is needed to create a virtual environment.
#[derive(Debug)]
pub struct VenvPlan {
    /// The version of Python that was selected, patch included.
    pub version: Version,
    pub environment: Environment,
    /// The directory in which to create it.
    pub lib_dir: String,
    /// The commands that are there once it has been created.
    pub python: String,
    pub pip: String,
}

/// The version of Python that was selected is not the one that the project asks for.
#[derive(Copy, Clone, Debug, PartialEq, Eq, Structural)]
pub struct VersionMismatch {
    pub selected: Version,
    pub configured: Version,
}

impl VersionMismatch {
    /// What to tell the user, with the two versions as they are written out.
    pub fn message(&self, selected: &str, configured: &str) -> (text: String)
        ensures
            text@ == "The Python version you selected ("@ + selected@
                + ") doesn't match the one specified in `pyprojecttoml` ("@ + configured@ + ")"@,
    {
        let mut text = "The Python version you selected (".to_owned();
        text.append(selected);
        text.append(") doesn't match the one specified in `pyprojecttoml` (");
        text.append(configured);
        text.append(")");
        text
    }
}

/// Plans a virtual environment for the `selected` version of Python, which has to be the
/// `configured` one, patch included, where the project asks for one.
pub fn create_venv(configured: Option<Version>, selected: Version) -> (plan: Result<
    VenvPlan,
    VersionMismatch,
>)
    ensures
        match plan {
            Ok(plan) => {
                &&& configured matches Some(version) ==> version == selected
                &&& plan.version == selected
                &&& plan.environment.version == (Version { patch: 0, ..selected })
                &&& plan.environment.dir@ == version_dir(selected)
                &&& plan.lib_dir@ == version_dir(selected) + "/lib"@
                &&& plan.python@ == version_dir(selected) + "/lib"@ + "/../.venv/bin/python"@
                &&& plan.pip@ == version_dir(selected) + "/lib"@ + "/../.venv/bin/pip"@
            },
            Err(mismatch) => configured == Some(mismatch.configured) && mismatch.selected
                == selected && mismatch.configured != selected,
        },
{
    if let Some(version) = configured {
        if version != selected {
            return Err(VersionMismatch { selected, configured: version });
        }
    }
    let environment = Environment::new(selected);
    let lib_dir = environment.lib_dir();
    let python = lib_dir.clone().concat("/../.venv/bin/python");
    let pip = lib_dir.clone().concat("/../.venv/bin/pip");
    Ok(VenvPlan { version: selected, environment, lib_dir, python, pip })
}

/// Two versions of Python share a directory if and only if they differ in no more than the
/// patch.
pub proof fn version_dir_ignores_the_patch_alone(a: Version, b: Version)
    ensures
        version_dir(a) == version_dir(b) <==> a.major == b.major && a.minor == b.minor,
{
    reveal_strlit(".");
    if version_dir(a) == version_dir(b) {
        let (m, n) = (decimal(a.major as nat), decimal(b.major as nat));
        let dir = version_dir(a);
        assert(dir[m.len() as int] == '.');
        assert(dir[n.len() as int] == '.');
        if m.len() < n.len() {
            decimal_holds_digits(b.major as nat, m.len() as int);
            assert(dir[m.len() as int] == n[m.len() as int]);
        } else if n.len() < m.len() {
            decimal_holds_digits(a.major as nat, n.len() as int);
            assert(dir[n.len() as int] == m[n.len() as int]);
        }
        assert(m =~= dir.take(m.len() as int));
        assert(n =~= dir.take(n.len() as int));
        decimal_is_injective(a.major as nat, b.major as nat);
        assert(decimal(a.minor as nat) =~= dir.skip((m.len() + 1) as int));
        assert(decimal(b.minor as nat) =~= dir.skip((m.len() + 1) as int));
        decimal_is_injective(a.minor as nat, b.minor as nat);
    }
}

/// The script to run and its arguments, from the words of a command line.
pub fn script_invocation(words: &Vec<String>) -> (invocation: Option<(String, Vec<String>)>)
    ensures
        match invocation {
            Some((script, args)) => words@.len() > 0 && script@ == words@[0]@ && args.deep_view()
                == words.deep_view().drop_first(),
            None => words@.len() == 0,
        },
{
    if words.len() == 0 {
        return None;
    }
    let mut args: Vec<String> = Vec::new();
    let mut i: usize = 1;
    while i < words.len()
        invariant
            1 <= i <= words@.len(),
            args@.len() == i - 1,
            forall|k: int| 0 <= k < i - 1 ==> (#[trigger] args@[k])@ == words@[k + 1]@,
        decreases words@.len() - i,
    {
        args.push(words[i].clone());
        i = i + 1;
    }
    assert(args.deep_view() =~= words.deep_view().drop_first());
    Some((words[0].clone(), args))
}

/// An environment is named after the major and the minor number of its version, and its
/// version has no patch. Its packages and its virtual environment lie in directories of its
/// own.
pub proof fn environments_are_named_after_their_version(
    version: Version,
    environment: Environment,
    lib_dir: String,
    venv_dir: String,
)
    requires
        call_ensures(Environment::new, (version,), environment),
        call_ensures(Environment::lib_dir, (&environment,), lib_dir),
        call_ensures(Environment::venv_dir, (&environment,), venv_dir),
    ensures
        environment.version.major == version.major,
        environment.version.minor == version.minor,
        environment.version.patch == 0,
        environment.dir@ == decimal(version.major as nat) + "."@ + decimal(version.minor as nat),
        lib_dir@ == environment.dir@ + "/lib"@,
        venv_dir@ == environment.dir@ + "/.venv"@,
{
}

/// Two versions of Python have the same environment if and only if they differ in no more
/// than the patch.
pub proof fn environments_ignore_the_patch_alone(
    a: Version,
    b: Version,
    of_a: Environment,
    of_b: Environment,
)
    requires
        call_ensures(Environment::new, (a,), of_a),
        call_ensures(Environment::new, (b,), of_b),
    ensures
        of_a.dir@ == of_b.dir@ <==> a.major == b.major && a.minor == b.minor,
        of_a.version == of_b.version <==> a.major == b.major && a.minor == b.minor,
{
    version_dir_ignores_the_patch_alone(a, b);
}

/// A project that asks for a version of Python gets the environment of that version, whatever
/// environments exist. A project that asks for none gets the only one that exists; it gets a
/// new one where none exists, and none where there is more than one.
pub proof fn projects_get_the_environment_they_ask_for(
    configured: Option<Version>,
    found: &Vec<Version>,
    choice: EnvironmentChoice,
    version: Version,
    environment: Environment,
)
    requires
        call_ensures(choose_environment, (configured, found), choice),
        call_ensures(Environment::new, (version,), environment),
    ensures
        configured == Some(version) ==> (choice matches EnvironmentChoice::Configured(e)
            && e.version == environment.version && e.dir@ == environment.dir@),
        configured is None && found@ == seq![version] ==> (choice matches EnvironmentChoice::Found(
            e,
        ) && e.version == environment.version && e.dir@ == environment.dir@),
        configured is None && found@.len() == 0 ==> choice is Create,
        configured is None && found@.len() > 1 ==> choice is Ambiguous,
{
    if configured is None && found@ == seq![version] {
        assert(found@[0] == version);
    }
}

/// A virtual environment is created exactly if the version that was selected is the one that
/// the project asks for, in all three numbers, or the project asks for none. It is then that of
/// the selected version, and the commands to wait for lie in it.
pub proof fn selected_version_must_be_the_configured(
    configured: Option<Version>,
    selected: Version,
    plan: Result<VenvPlan, VersionMismatch>,
    environment: Environment,
)
    requires
        call_ensures(create_venv, (configured, selected), plan),
        call_ensures(Environment::new, (selected,), environment),
    ensures
        plan is Ok <==> (configured matches Some(v) ==> v.major == selected.major && v.minor
            == selected.minor && v.patch == selected.patch),
        plan matches Ok(plan) ==> {
            &&& plan.version == selected
            &&& plan.environment.version == environment.version
            &&& plan.environment.dir@ == environment.dir@
            &&& plan.lib_dir@ == environment.dir@ + "/lib"@
            &&& plan.python@ == plan.lib_dir@ + "/../.venv/bin/python"@
            &&& plan.pip@ == plan.lib_dir@ + "/../.venv/bin/pip"@
        },
        plan matches Err(mismatch) ==> mismatch.selected == selected && Some(mismatch.configured)
            == configured,
{
}

/// The user is told both versions, the selected one first.
pub proof fn mismatch_names_both_versions(
    mismatch: &VersionMismatch,
    selected: &str,
    configured: &str,
    text: String,
)
    requires
        call_ensures(VersionMismatch::message, (mismatch, selected, configured), text),
    ensures
        text@ == "The Python version you selected ("@ + selected@
            + ") doesn't match the one specified in `pyprojecttoml` ("@ + configured@ + ")"@,
{
}

/// The first word names the script, and the others are its arguments, in order.
pub proof fn first_word_names_the_script(
    words: &Vec<String>,
    invocation: Option<(String, Vec<String>)>,
)
    requires
        call_ensures(script_invocation, (words,), invocation),
    ensures
        words@.len() == 0 <==> invocation is None,
        invocation matches Some((script, args)) ==> {
            &&& script@ == words@[0]@
            &&& args@.len() == words@.len() - 1
            &&& forall|i: int| 0 <= i < args@.len() ==> (#[trigger] args@[i])@ == words@[i + 1]@
        },
{
    if let Some((script, args)) = invocation {
        assert(args.deep_view().len() == args@.len());
        assert(words.deep_view().len() == words@.len());
        assert forall|i: int| 0 <= i < args@.len() implies (#[trigger] args@[i])@
            == words@[i + 1]@ by {
            assert(args.deep_view()[i] == args@[i]@);
            assert(words.deep_view()[i + 1] == words@[i + 1]@);
        }
    }
}

} // verus!
