//! Releases of a package: which operating system a wheel is for, and which release to take.

use crate::pattern::{platform_of_wheel, wheel_platform};
use crate::text::{contains_text, find_text, occurs_at, same_text};
use crate::version::{version_answer, Version};
use vstd::prelude::*;
use vstd::string::StringExecFns;

verus! {

/// The two kinds of releases that can be installed.
#[derive(Copy, Clone, Debug, PartialEq, Eq, Structural)]
pub enum PackageType {
    Wheel,
    Source,
}

/// Used to determine which version of a binary package to download. Assume 64-bit.
#[derive(Copy, Clone, Debug, PartialEq, Eq, Structural)]
pub enum Os {
    Linux32,
    Linux,
    Windows32,
    Windows,
    Mac32,
    Mac,
    Any,
}

/// Why a wheel's file name tells no operating system.
#[derive(Debug)]
pub enum WheelError {
    /// The name does not have the form of a wheel's name.
    NotAWheel,
    /// The name holds this platform, which is not known.
    UnknownPlatform(String),
}

/// The operating system of a platform, where it is known.
pub open spec fn os_of_platform(platform: Seq<char>) -> Option<Os> {
    if platform == "manylinux1_i686"@ {
        Some(Os::Linux32)
    } else if platform == "manylinux1_x86_64"@ {
        Some(Os::Linux)
    } else if platform == "win32"@ {
        Some(Os::Windows32)
    } else if platform == "win_amd64"@ {
        Some(Os::Windows)
    } else if platform == "any"@ {
        Some(Os::Any)
    } else if contains_text(platform, "mac"@) {
        Some(Os::Mac)
    } else {
        None
    }
}

impl WheelError {
    /// What to tell the user.
    pub fn message(&self) -> (text: String)
        ensures
            text@ == (match *self {
                WheelError::NotAWheel => "Problem parsing os from wheel name"@,
                WheelError::UnknownPlatform(platform) => "Unknown OS type in wheel filename: "@
                    + platform@,
            }),
    {
        match self {
            WheelError::NotAWheel => "Problem parsing os from wheel name".to_owned(),
            WheelError::UnknownPlatform(platform) => "Unknown OS type in wheel filename: ".to_owned().concat(
                platform.as_str(),
            ),
        }
    }
}

/// Finds the operating system from a wheel's file name, which has the form
/// "name-version-pythonversion-?-os".
pub fn os_from_wheel_fname(filename: &str) -> (os: Result<Os, WheelError>)
    ensures
        match os {
            Ok(os) => wheel_platform(filename@) matches Some(platform) && os_of_platform(platform)
                == Some(os),
            Err(WheelError::NotAWheel) => wheel_platform(filename@) is None,
            Err(WheelError::UnknownPlatform(platform)) => wheel_platform(filename@) == Some(
                platform@,
            ) && os_of_platform(platform@) is None,
        },
{
    let platform = match platform_of_wheel(filename) {
        Some(platform) => platform,
        None => {
            return Err(WheelError::NotAWheel);
        },
    };
    let p = platform.as_str();
    if same_text(p, "manylinux1_i686") {
        Ok(Os::Linux32)
    } else if same_text(p, "manylinux1_x86_64") {
        Ok(Os::Linux)
    } else if same_text(p, "win32") {
        Ok(Os::Windows32)
    } else if same_text(p, "win_amd64") {
        Ok(Os::Windows)
    } else if same_text(p, "any") {
        Ok(Os::Any)
    } else if find_text(p, "mac") {
        Ok(Os::Mac)
    } else {
        Err(WheelError::UnknownPlatform(platform))
    }
}

/// A file of a release, as the package index describes it.
#[derive(Debug)]
pub struct Release {
    pub packagetype: String,
    pub filename: String,
    pub url: String,
    pub md5_digest: String,
    pub python_version: String,
    pub requires_python: Option<String>,
}

/// What a `Release` holds.
pub struct ReleaseView {
    pub packagetype: Seq<char>,
    pub filename: Seq<char>,
    pub url: Seq<char>,
    pub md5_digest: Seq<char>,
    pub python_version: Seq<char>,
    pub requires_python: Option<Seq<char>>,
}

impl DeepView for Release {
    type V = ReleaseView;

    open spec fn deep_view(&self) -> ReleaseView {
        ReleaseView {
            packagetype: self.packagetype@,
            filename: self.filename@,
            url: self.url@,
            md5_digest: self.md5_digest@,
            python_version: self.python_version@,
            requires_python: self.requires_python.deep_view(),
        }
    }
}

impl Clone for Release {
    fn clone(&self) -> (copy: Release)
        ensures
            copy.deep_view() == self.deep_view(),
    {
        Release {
            packagetype: self.packagetype.clone(),
            filename: self.filename.clone(),
            url: self.url.clone(),
            md5_digest: self.md5_digest.clone(),
            python_version: self.python_version.clone(),
            requires_python: self.requires_python.clone(),
        }
    }
}

/// How the Python at hand stands to what a release requires of Python.
#[derive(Copy, Clone, Debug, PartialEq, Eq, Structural)]
pub enum PythonRequirement {
    /// The release requires nothing.
    Absent,
    Met,
    NotMet,
    /// The requirement cannot be read.
    Unreadable,
}

impl DeepView for PythonRequirement {
    type V = PythonRequirement;

    open spec fn deep_view(&self) -> PythonRequirement {
        *self
    }
}

/// A release that could be taken.
#[derive(Debug)]
pub struct Candidate {
    pub release: Release,
    pub requirement: PythonRequirement,
    /// The version of Python that the release's `python_version` tag stands for, where it
    /// can be read.
    pub built_for: Option<Version>,
}

/// What a `Candidate` holds.
pub struct CandidateView {
    pub release: ReleaseView,
    pub requirement: PythonRequirement,
    pub built_for: Option<Version>,
}

impl DeepView for Candidate {
    type V = CandidateView;

    open spec fn deep_view(&self) -> CandidateView {
        CandidateView {
            release: self.release.deep_view(),
            requirement: self.requirement,
            built_for: self.built_for,
        }
    }
}

/// Whether `allows` can judge what a release requires of Python as `requirement`.
pub open spec fn is_requirement<A: Fn(&str) -> Option<bool>>(
    allows: A,
    requires_python: Option<Seq<char>>,
    requirement: PythonRequirement,
) -> bool {
    match requires_python {
        None => requirement == PythonRequirement::Absent,
        Some(text) => exists|t: &str, answer: Option<bool>|
            {
                &&& t@ == text
                &&& #[trigger] call_ensures(allows, (t,), answer)
                &&& requirement == (match answer {
                    Some(true) => PythonRequirement::Met,
                    Some(false) => PythonRequirement::NotMet,
                    None => PythonRequirement::Unreadable,
                })
            },
    }
}

impl Candidate {
    /// Takes `release` as a candidate. `allows` says whether the Python at hand meets what
    /// a release requires, and nothing where it cannot read that; `tag_version` reads the
    /// version of Python that a tag stands for.
    pub fn new<A: Fn(&str) -> Option<bool>, T: Fn(&str) -> Option<Version>>(
        release: Release,
        allows: A,
        tag_version: T,
    ) -> (candidate: Candidate)
        requires
            forall|t: &str| call_requires(allows, (t,)),
            forall|t: &str| call_requires(tag_version, (t,)),
        ensures
            candidate.release == release,
            is_requirement(allows, release.requires_python.deep_view(), candidate.requirement),
            version_answer(tag_version, release.python_version@, candidate.built_for),
    {
        let requirement = match &release.requires_python {
            None => PythonRequirement::Absent,
            Some(text) => match allows(text.as_str()) {
                Some(true) => PythonRequirement::Met,
                Some(false) => PythonRequirement::NotMet,
                None => PythonRequirement::Unreadable,
            },
        };
        let built_for = tag_version(release.python_version.as_str());
        Candidate { release, requirement, built_for }
    }
}

/// Why no release can be taken.
#[derive(Debug)]
pub enum SelectError {
    /// What a wheel requires of Python cannot be read.
    UnreadableRequirement,
    /// The file name of a wheel tells no operating system.
    Wheel(WheelError),
    /// A release is neither a wheel nor a source archive, but of this type.
    SurprisingType(String),
    /// There is neither a compatible wheel nor a source archive.
    NoRelease,
}

impl SelectError {
    /// What there is to tell about the package `name`, whose version is written `version`.
    pub open spec fn told(self, name: Seq<char>, version: Seq<char>) -> Seq<char> {
        match self {
            SelectError::UnreadableRequirement => "Problem parsing constraint from requires_python"@,
            SelectError::Wheel(WheelError::NotAWheel) => "Problem getting os from wheel name"@,
            SelectError::Wheel(WheelError::UnknownPlatform(platform)) => "Unknown OS type in wheel filename: "@
                + platform@,
            SelectError::SurprisingType(packagetype) => "Found surprising package type: "@
                + packagetype@,
            SelectError::NoRelease => "Unable to find a compatible release for "@ + name + ": "@
                + version,
        }
    }

    /// What to tell the user about the package `name`, whose version is written `version`.
    pub fn message(&self, name: &str, version: &str) -> (text: String)
        ensures
            text@ == self.told(name@, version@),
    {
        match self {
            SelectError::UnreadableRequirement => "Problem parsing constraint from requires_python".to_owned(),
            SelectError::Wheel(WheelError::NotAWheel) => "Problem getting os from wheel name".to_owned(),
            SelectError::Wheel(error) => error.message(),
            SelectError::SurprisingType(packagetype) => "Found surprising package type: ".to_owned().concat(
                packagetype.as_str(),
            ),
            SelectError::NoRelease => "Unable to find a compatible release for ".to_owned().concat(
                name,
            ).concat(": ").concat(version),
        }
    }
}

/// What a release is good for.
pub enum Class {
    /// A wheel that suits.
    Suitable,
    /// A wheel that does not suit.
    Unsuitable,
    /// A source archive.
    Source,
    UnreadableRequirement,
    NotAWheel,
    UnknownPlatform(Seq<char>),
    SurprisingType(Seq<char>),
}

/// Whether a wheel built for Python `built_for` and tagged `tag` runs on `python`. A tag
/// that cannot be read rules nothing out, nor do the tags of wheels for every Python 3.
pub open spec fn runs_on(built_for: Option<Version>, tag: Seq<char>, python: Version) -> bool {
    match built_for {
        Some(version) => version == python || tag == "py2.py3"@ || tag == "py3"@,
        None => true,
    }
}

/// What `candidate` is good for, with `python` on `os`.
pub open spec fn class_of(candidate: CandidateView, python: Version, os: Os) -> Class {
    let release = candidate.release;
    if release.packagetype == "bdist_wheel"@ {
        if candidate.requirement == PythonRequirement::Unreadable {
            Class::UnreadableRequirement
        } else {
            match wheel_platform(release.filename) {
                None => Class::NotAWheel,
                Some(platform) => match os_of_platform(platform) {
                    None => Class::UnknownPlatform(platform),
                    Some(wheel_os) => if candidate.requirement != PythonRequirement::NotMet && (
                    wheel_os == os || wheel_os == Os::Any) && runs_on(
                        candidate.built_for,
                        release.python_version,
                        python,
                    ) {
                        Class::Suitable
                    } else {
                        Class::Unsuitable
                    },
                },
            }
        }
    } else if release.packagetype == "sdist"@ {
        Class::Source
    } else {
        Class::SurprisingType(release.packagetype)
    }
}

/// Whether `candidate` can be judged at all.
pub open spec fn is_sound(candidate: CandidateView, python: Version, os: Os) -> bool {
    let class = class_of(candidate, python, os);
    class is Suitable || class is Unsuitable || class is Source
}

/// Whether `error` is what is wrong with `candidate`.
pub open spec fn is_fault(
    candidate: CandidateView,
    python: Version,
    os: Os,
    error: SelectError,
) -> bool {
    match (class_of(candidate, python, os), error) {
        (Class::UnreadableRequirement, SelectError::UnreadableRequirement) => true,
        (Class::NotAWheel, SelectError::Wheel(WheelError::NotAWheel)) => true,
        (
            Class::UnknownPlatform(found),
            SelectError::Wheel(WheelError::UnknownPlatform(told)),
        ) => found == told@,
        (Class::SurprisingType(found), SelectError::SurprisingType(told)) => found == told@,
        _ => false,
    }
}

/// What selecting among `candidates` comes to: the first thing wrong with one of them;
/// else the first suitable wheel; else the first source archive; else nothing.
pub open spec fn is_selection(
    candidates: Seq<CandidateView>,
    python: Version,
    os: Os,
    selection: Result<(usize, PackageType), SelectError>,
) -> bool {
    let n = candidates.len();
    let sound = forall|i: int| 0 <= i < n ==> is_sound(#[trigger] candidates[i], python, os);
    let wheel_before = |end: int|
        exists|i: int|
            0 <= i < end && class_of(#[trigger] candidates[i], python, os) is Suitable;
    let source_before = |end: int|
        exists|i: int| 0 <= i < end && class_of(#[trigger] candidates[i], python, os) is Source;
    match selection {
        Ok((at, PackageType::Wheel)) => {
            &&& sound
            &&& at < n
            &&& class_of(candidates[at as int], python, os) is Suitable
            &&& !wheel_before(at as int)
        },
        Ok((at, PackageType::Source)) => {
            &&& sound
            &&& at < n
            &&& class_of(candidates[at as int], python, os) is Source
            &&& !source_before(at as int)
            &&& !wheel_before(n as int)
        },
        Err(SelectError::NoRelease) => {
            &&& sound
            &&& !wheel_before(n as int)
            &&& !source_before(n as int)
        },
        Err(error) => exists|at: int|
            {
                &&& 0 <= at < n
                &&& is_fault(#[trigger] candidates[at], python, os, error)
                &&& forall|i: int|
                    0 <= i < at ==> is_sound(#[trigger] candidates[i], python, os)
            },
    }
}

/// How a release counts.
enum Verdict {
    Suitable,
    Unsuitable,
    Source,
}

/// Judges one release, for `python` on `os`.
fn judge(candidate: &Candidate, python: Version, os: Os) -> (verdict: Result<Verdict, SelectError>)
    ensures
        match verdict {
            Ok(Verdict::Suitable) => class_of(candidate.deep_view(), python, os) is Suitable,
            Ok(Verdict::Unsuitable) => class_of(candidate.deep_view(), python, os) is Unsuitable,
            Ok(Verdict::Source) => class_of(candidate.deep_view(), python, os) is Source,
            Err(error) => is_fault(candidate.deep_view(), python, os, error) && !(
            error is NoRelease),
        },
{
    let release = &candidate.release;
    if same_text(release.packagetype.as_str(), "bdist_wheel") {
        let allowed = match candidate.requirement {
            PythonRequirement::Unreadable => {
                return Err(SelectError::UnreadableRequirement);
            },
            PythonRequirement::NotMet => false,
            _ => true,
        };
        let wheel_os = match os_from_wheel_fname(release.filename.as_str()) {
            Ok(wheel_os) => wheel_os,
            Err(error) => {
                return Err(SelectError::Wheel(error));
            },
        };
        let tag = release.python_version.as_str();
        let runs = match candidate.built_for {
            Some(version) => version == python || same_text(tag, "py2.py3") || same_text(
                tag,
                "py3",
            ),
            None => true,
        };
        if allowed && (wheel_os == os || wheel_os == Os::Any) && runs {
            Ok(Verdict::Suitable)
        } else {
            Ok(Verdict::Unsuitable)
        }
    } else if same_text(release.packagetype.as_str(), "sdist") {
        Ok(Verdict::Source)
    } else {
        Err(SelectError::SurprisingType(release.packagetype.clone()))
    }
}

/// Picks the release to install: the first wheel that suits `python` on `os`, or, where
/// there is none, the first source archive.
pub fn select_release(candidates: &Vec<Candidate>, python: Version, os: Os) -> (selection: Result<
    (usize, PackageType),
    SelectError,
>)
    ensures
        is_selection(candidates.deep_view(), python, os, selection),
{
    let mut wheel: Option<usize> = None;
    let mut source: Option<usize> = None;
    let ghost all = candidates.deep_view();
    for i in 0..candidates.len()
        invariant
            all == candidates.deep_view(),
            forall|k: int| 0 <= k < i ==> is_sound(#[trigger] all[k], python, os),
            match wheel {
                Some(at) => at < i && class_of(all[at as int], python, os) is Suitable && forall|
                    k: int,
                |
                    0 <= k < at ==> !(class_of(#[trigger] all[k], python, os) is Suitable),
                None => forall|k: int|
                    0 <= k < i ==> !(class_of(#[trigger] all[k], python, os) is Suitable),
            },
            match source {
                Some(at) => at < i && class_of(all[at as int], python, os) is Source && forall|
                    k: int,
                |
                    0 <= k < at ==> !(class_of(#[trigger] all[k], python, os) is Source),
                None => forall|k: int|
                    0 <= k < i ==> !(class_of(#[trigger] all[k], python, os) is Source),
            },
    {
        assert(all[i as int] == candidates@[i as int].deep_view());
        match judge(&candidates[i], python, os) {
            Ok(Verdict::Suitable) => {
                if wheel.is_none() {
                    wheel = Some(i);
                }
            },
            Ok(Verdict::Unsuitable) => {},
            Ok(Verdict::Source) => {
                if source.is_none() {
                    source = Some(i);
                }
            },
            Err(error) => {
                return Err(error);
            },
        }
    }
    match (wheel, source) {
        (Some(at), _) => Ok((at, PackageType::Wheel)),
        (None, Some(at)) => Ok((at, PackageType::Source)),
        (None, None) => Err(SelectError::NoRelease),
    }
}

/// Selecting comes to one thing only: to one release, or to one thing to tell.
pub proof fn selection_is_unique(
    candidates: Seq<CandidateView>,
    python: Version,
    os: Os,
    one: Result<(usize, PackageType), SelectError>,
    other: Result<(usize, PackageType), SelectError>,
)
    requires
        is_selection(candidates, python, os, one),
        is_selection(candidates, python, os, other),
    ensures
        match (one, other) {
            (Ok(a), Ok(b)) => a == b,
            (Err(a), Err(b)) => forall|name: Seq<char>, version: Seq<char>| #[trigger]
                a.told(name, version) == b.told(name, version),
            _ => false,
        },
{
    if let Err(a) = one {
        if !(a is NoRelease) {
            let i = choose|at: int|
                {
                    &&& 0 <= at < candidates.len()
                    &&& is_fault(#[trigger] candidates[at], python, os, a)
                    &&& forall|i: int|
                        0 <= i < at ==> is_sound(#[trigger] candidates[i], python, os)
                };
            assert(!is_sound(candidates[i], python, os));
        }
    }
    if let Err(b) = other {
        if !(b is NoRelease) {
            let j = choose|at: int|
                {
                    &&& 0 <= at < candidates.len()
                    &&& is_fault(#[trigger] candidates[at], python, os, b)
                    &&& forall|i: int|
                        0 <= i < at ==> is_sound(#[trigger] candidates[i], python, os)
                };
            assert(!is_sound(candidates[j], python, os));
        }
    }
}

/// The operating system of a wheel is the one that its platform stands for. Five platforms
/// are known by name; of the others, those that speak of a Mac stand for it; the rest is told
/// as it is, and a name without a platform is no wheel's.
pub proof fn platforms_tell_the_system(
    filename: &str,
    before: Seq<char>,
    after: Seq<char>,
    platform: Option<String>,
    os: Result<Os, WheelError>,
)
    requires
        call_ensures(platform_of_wheel, (filename,), platform),
        call_ensures(os_from_wheel_fname, (filename,), os),
    ensures
        platform is None <==> (os matches Err(error) && error is NotAWheel),
        platform matches Some(p) ==> {
            let known = p@ == "manylinux1_i686"@ || p@ == "manylinux1_x86_64"@ || p@ == "win32"@
                || p@ == "win_amd64"@ || p@ == "any"@;
            &&& p@ == "manylinux1_i686"@ <==> os == Ok::<Os, WheelError>(Os::Linux32)
            &&& p@ == "manylinux1_x86_64"@ <==> os == Ok::<Os, WheelError>(Os::Linux)
            &&& p@ == "win32"@ <==> os == Ok::<Os, WheelError>(Os::Windows32)
            &&& p@ == "win_amd64"@ <==> os == Ok::<Os, WheelError>(Os::Windows)
            &&& p@ == "any"@ <==> os == Ok::<Os, WheelError>(Os::Any)
            &&& !known && p@ == before + "mac"@ + after ==> os == Ok::<Os, WheelError>(Os::Mac)
            &&& os matches Ok(system) ==> known || system == Os::Mac && exists|
                b: Seq<char>,
                a: Seq<char>,
            |
                p@ == #[trigger] (b + "mac"@ + a)
            &&& os matches Err(error) ==> (error matches WheelError::UnknownPlatform(q) && q@ == p@)
        },
{
    reveal_strlit("manylinux1_i686");
    reveal_strlit("manylinux1_x86_64");
    reveal_strlit("win32");
    reveal_strlit("win_amd64");
    reveal_strlit("any");
    reveal_strlit("mac");
    if let Some(p) = platform {
        assert("manylinux1_i686"@.len() == 15);
        assert("manylinux1_x86_64"@.len() == 17);
        assert("win32"@.len() == 5);
        assert("win_amd64"@.len() == 9);
        assert("any"@.len() == 3);
        if p@ == before + "mac"@ + after {
            let at = before.len() as int;
            assert(p@.subrange(at, at + "mac"@.len()) =~= "mac"@);
            assert(occurs_at(p@, "mac"@, at));
        }
        if contains_text(p@, "mac"@) {
            let at = choose|at: int| #[trigger] occurs_at(p@, "mac"@, at);
            let b = p@.take(at);
            let a = p@.skip(at + "mac"@.len());
            assert(p@ =~= b + p@.subrange(at, at + "mac"@.len()) + a);
            assert(p@ == b + "mac"@ + a);
        }
    }
}

/// A candidate keeps its release. Its requirement on Python is absent where the release has
/// none, and otherwise what `allows` answers to it; the version that it was built for is what
/// `tag_version` answers to its tag.
pub proof fn candidates_are_assessed<
    A: Fn(&str) -> Option<bool>,
    T: Fn(&str) -> Option<Version>,
>(
    release: Release,
    allows: A,
    tag_version: T,
    candidate: Candidate,
)
    requires
        call_ensures(Candidate::new::<A, T>, (release, allows, tag_version), candidate),
    ensures
        candidate.release == release,
        exists|t: &str| #[trigger]
            call_ensures(tag_version, (t,), candidate.built_for) && t@ == release.python_version@,
        release.requires_python is None <==> candidate.requirement == PythonRequirement::Absent,
        release.requires_python matches Some(text) ==> exists|t: &str, answer: Option<bool>|
            {
                &&& #[trigger] call_ensures(allows, (t,), answer)
                &&& t@ == text@
                &&& answer == Some(true) <==> candidate.requirement == PythonRequirement::Met
                &&& answer == Some(false) <==> candidate.requirement == PythonRequirement::NotMet
                &&& answer is None <==> candidate.requirement == PythonRequirement::Unreadable
            },
{
    assert(release.requires_python.deep_view() == (match release.requires_python {
        Some(text) => Some(text@),
        None => None,
    }));
}

/// A wheel that is selected suits. Python meets what it requires, where it requires anything;
/// it is for the system at hand or for any; and its tag, where it can be read, stands for the
/// very version of Python at hand, or is one of the two that stand for every Python 3.
pub proof fn selected_wheels_suit(
    candidates: &Vec<Candidate>,
    python: Version,
    os: Os,
    at: usize,
    filename: &str,
    wheel_os: Result<Os, WheelError>,
)
    requires
        call_ensures(select_release, (candidates, python, os), Ok((at, PackageType::Wheel))),
        filename@ == candidates@[at as int].release.filename@,
        call_ensures(os_from_wheel_fname, (filename,), wheel_os),
    ensures
        at < candidates@.len(),
        candidates@[at as int].release.packagetype@ == "bdist_wheel"@,
        candidates@[at as int].requirement == PythonRequirement::Absent || candidates@[at as int].requirement
            == PythonRequirement::Met,
        wheel_os == Ok::<Os, WheelError>(os) || wheel_os == Ok::<Os, WheelError>(Os::Any),
        candidates@[at as int].built_for matches Some(v) ==> v.major == python.major && v.minor
            == python.minor && v.patch == python.patch || candidates@[at as int].release.python_version@
            == "py2.py3"@ || candidates@[at as int].release.python_version@ == "py3"@,
{
    assert(candidates.deep_view()[at as int] == candidates@[at as int].deep_view());
}

/// What is selected as a source archive is one.
pub proof fn selected_sources_are_source_archives(
    candidates: &Vec<Candidate>,
    python: Version,
    os: Os,
    at: usize,
)
    requires
        call_ensures(select_release, (candidates, python, os), Ok((at, PackageType::Source))),
    ensures
        at < candidates@.len(),
        candidates@[at as int].release.packagetype@ == "sdist"@,
{
    assert(candidates.deep_view()[at as int] == candidates@[at as int].deep_view());
    reveal_strlit("sdist");
    reveal_strlit("bdist_wheel");
}

/// What selecting from one release comes to. A wheel whose requirement cannot be read, or
/// whose name tells no system, and a release of another type, are told as such. A source
/// archive is taken. A wheel is taken if it suits, and otherwise there is no release.
pub proof fn one_release_is_taken_or_told(
    candidates: &Vec<Candidate>,
    python: Version,
    os: Os,
    filename: &str,
    wheel_os: Result<Os, WheelError>,
    selection: Result<(usize, PackageType), SelectError>,
)
    requires
        call_ensures(select_release, (candidates, python, os), selection),
        candidates@.len() == 1,
        filename@ == candidates@[0].release.filename@,
        call_ensures(os_from_wheel_fname, (filename,), wheel_os),
    ensures
        ({
            let one = candidates@[0];
            let tag = one.release.python_version@;
            let kind = one.release.packagetype@;
            let suits = {
                &&& one.requirement == PythonRequirement::Absent || one.requirement
                    == PythonRequirement::Met
                &&& wheel_os == Ok::<Os, WheelError>(os) || wheel_os == Ok::<Os, WheelError>(
                    Os::Any,
                )
                &&& one.built_for is None || one.built_for == Some(python) || tag == "py2.py3"@
                    || tag == "py3"@
            };
            if kind == "bdist_wheel"@ {
                if one.requirement == PythonRequirement::Unreadable {
                    selection matches Err(error) && error is UnreadableRequirement
                } else {
                    match wheel_os {
                        Err(WheelError::NotAWheel) => selection matches Err(
                            SelectError::Wheel(error),
                        ) && error is NotAWheel,
                        Err(WheelError::UnknownPlatform(p)) => selection matches Err(
                            SelectError::Wheel(error),
                        ) && (error matches WheelError::UnknownPlatform(q) && q@ == p@),
                        Ok(_) => if suits {
                            selection == Ok::<(usize, PackageType), SelectError>(
                                (0, PackageType::Wheel),
                            )
                        } else {
                            selection matches Err(error) && error is NoRelease
                        },
                    }
                }
            } else if kind == "sdist"@ {
                selection == Ok::<(usize, PackageType), SelectError>((0, PackageType::Source))
            } else {
                selection matches Err(SelectError::SurprisingType(told)) && told@ == kind
            }
        }),
{
    let all = candidates.deep_view();
    assert(all[0] == candidates@[0].deep_view());
    assert(all.len() == 1);
}

/// Whether two errors say the same.
pub open spec fn same_fault(one: SelectError, other: SelectError) -> bool {
    match (one, other) {
        (SelectError::UnreadableRequirement, SelectError::UnreadableRequirement) => true,
        (
            SelectError::Wheel(WheelError::NotAWheel),
            SelectError::Wheel(WheelError::NotAWheel),
        ) => true,
        (
            SelectError::Wheel(WheelError::UnknownPlatform(p)),
            SelectError::Wheel(WheelError::UnknownPlatform(q)),
        ) => p@ == q@,
        (SelectError::SurprisingType(p), SelectError::SurprisingType(q)) => p@ == q@,
        (SelectError::NoRelease, SelectError::NoRelease) => true,
        _ => false,
    }
}

/// Releases are gone through in order. What is wrong with one is told, unless something was
/// wrong before it. Otherwise one release more is taken if it is a wheel that suits and no
/// wheel was taken before, or if it is a source archive and nothing was taken before; and if
/// it is not taken, the outcome stays. From no release, none is taken.
pub proof fn releases_are_gone_through_in_order(
    shorter: &Vec<Candidate>,
    longer: &Vec<Candidate>,
    last: &Vec<Candidate>,
    python: Version,
    os: Os,
    before: Result<(usize, PackageType), SelectError>,
    after: Result<(usize, PackageType), SelectError>,
    alone: Result<(usize, PackageType), SelectError>,
)
    requires
        call_ensures(select_release, (shorter, python, os), before),
        call_ensures(select_release, (longer, python, os), after),
        call_ensures(select_release, (last, python, os), alone),
        last@.len() == 1,
        longer@ == shorter@ + last@,
        longer@.len() <= usize::MAX,
    ensures
        shorter@.len() == 0 ==> (before matches Err(error) && error is NoRelease),
        match (before, alone) {
            (Err(error), _) if !(error is NoRelease) => after matches Err(told) && same_fault(
                told,
                error,
            ),
            (_, Err(error)) if !(error is NoRelease) => after matches Err(told) && same_fault(
                told,
                error,
            ),
            (Ok((at, PackageType::Wheel)), _) => after == before,
            (_, Ok((_, PackageType::Wheel))) => after == Ok::<(usize, PackageType), SelectError>(
                (shorter@.len() as usize, PackageType::Wheel),
            ),
            (Ok((at, PackageType::Source)), _) => after == before,
            (_, Ok((_, PackageType::Source))) => after == Ok::<(usize, PackageType), SelectError>(
                (shorter@.len() as usize, PackageType::Source),
            ),
            _ => after matches Err(error) && error is NoRelease,
        },
{
    let a = shorter.deep_view();
    let b = longer.deep_view();
    let c = last.deep_view();
    let n = a.len() as int;
    assert(b =~= a + c);
    assert(forall|i: int| 0 <= i < n ==> #[trigger] b[i] == a[i]);
    assert(forall|i: int| 0 <= i < n ==> #[trigger] a[i] == b[i]);
    assert(b[n] == c[0]);
    if let Err(error) = alone {
        if !(error is NoRelease) {
            assert(is_fault(c[0], python, os, error));
            assert(!is_sound(b[n], python, os));
        }
    }
    if let Err(error) = before {
        if !(error is NoRelease) {
            let at = choose|at: int|
                {
                    &&& 0 <= at < n
                    &&& is_fault(#[trigger] a[at], python, os, error)
                    &&& forall|i: int| 0 <= i < at ==> is_sound(#[trigger] a[i], python, os)
                };
            assert(!is_sound(b[at], python, os));
        }
    }
    if let Err(told) = after {
        if !(told is NoRelease) {
            let at = choose|at: int|
                {
                    &&& 0 <= at < n + 1
                    &&& is_fault(#[trigger] b[at], python, os, told)
                    &&& forall|i: int| 0 <= i < at ==> is_sound(#[trigger] b[i], python, os)
                };
            assert(!is_sound(b[at], python, os));
            if at < n {
                assert(a[at] == b[at]);
            }
        }
    }
}

/// The user is told what the trouble is about: the package and its version, the platform, or
/// the type of the release.
pub proof fn messages_name_the_trouble(
    error: &SelectError,
    name: &str,
    version: &str,
    text: String,
    wheel_error: &WheelError,
    wheel_text: String,
)
    requires
        call_ensures(SelectError::message, (error, name, version), text),
        call_ensures(WheelError::message, (wheel_error,), wheel_text),
    ensures
        error is NoRelease ==> text@ == "Unable to find a compatible release for "@ + name@ + ": "@
            + version@,
        *error matches SelectError::SurprisingType(kind) ==> text@
            == "Found surprising package type: "@ + kind@,
        *error matches SelectError::Wheel(WheelError::UnknownPlatform(platform)) ==> text@
            == "Unknown OS type in wheel filename: "@ + platform@,
        *error matches SelectError::Wheel(WheelError::NotAWheel) ==> text@
            == "Problem getting os from wheel name"@,
        error is UnreadableRequirement ==> text@
            == "Problem parsing constraint from requires_python"@,
        *wheel_error matches WheelError::UnknownPlatform(platform) ==> wheel_text@
            == "Unknown OS type in wheel filename: "@ + platform@,
        wheel_error is NotAWheel ==> wheel_text@ == "Problem parsing os from wheel name"@,
{
}

} // verus!
