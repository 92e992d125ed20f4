//! Version numbers, requirements and locked packages.

use vstd::prelude::*;

verus! {

/// A version number of a package or of Python.
#[derive(Copy, Clone, Debug, PartialEq, Eq, Structural)]
pub struct Version {
    pub major: u32,
    pub minor: u32,
    pub patch: u32,
}

impl DeepView for Version {
    type V = Version;

    open spec fn deep_view(&self) -> Version {
        *self
    }
}

impl Version {
    /// A version with all three numbers.
    pub fn new(major: u32, minor: u32, patch: u32) -> (version: Version)
        ensures
            version == (Version { major, minor, patch }),
    {
        Version { major, minor, patch }
    }

    /// A version without a patch number, which counts as patch zero.
    pub fn new_short(major: u32, minor: u32) -> (version: Version)
        ensures
            version == (Version { major, minor, patch: 0 }),
    {
        Version { major, minor, patch: 0 }
    }
}

/// Whether `read` can answer `answer` to `text`.
pub open spec fn version_answer<F: Fn(&str) -> Option<Version>>(
    read: F,
    text: Seq<char>,
    answer: Option<Version>,
) -> bool {
    exists|t: &str| t@ == text && #[trigger] call_ensures(read, (t,), answer)
}

/// Whether `show` can write `version` out as `text`.
pub open spec fn is_version_text<F: Fn(&Version) -> String>(
    show: F,
    version: Version,
    text: Seq<char>,
) -> bool {
    exists|shown: String| shown@ == text && #[trigger] call_ensures(show, (&version,), shown)
}

/// A condition on the version of a package.
#[derive(Debug)]
pub enum Constraint {
    /// This version and no other.
    Exact(Version),
    /// Any other condition, as it was written.
    Written(String),
}

/// What a `Constraint` holds.
pub enum ConstraintView {
    Exact(Version),
    Written(Seq<char>),
}

impl DeepView for Constraint {
    type V = ConstraintView;

    open spec fn deep_view(&self) -> ConstraintView {
        match self {
            Constraint::Exact(version) => ConstraintView::Exact(*version),
            Constraint::Written(text) => ConstraintView::Written(text@),
        }
    }
}

impl Clone for Constraint {
    fn clone(&self) -> (copy: Constraint)
        ensures
            copy == *self,
    {
        match self {
            Constraint::Exact(version) => Constraint::Exact(*version),
            Constraint::Written(text) => Constraint::Written(text.clone()),
        }
    }
}

/// A required package, with the conditions on its version.
#[derive(Debug)]
pub struct Req {
    pub name: String,
    pub constraints: Vec<Constraint>,
}

/// What a `Req` holds.
pub struct ReqView {
    pub name: Seq<char>,
    pub constraints: Seq<ConstraintView>,
}

impl DeepView for Req {
    type V = ReqView;

    open spec fn deep_view(&self) -> ReqView {
        ReqView { name: self.name@, constraints: self.constraints.deep_view() }
    }
}

impl Clone for Req {
    fn clone(&self) -> (copy: Req)
        ensures
            copy.deep_view() == self.deep_view(),
    {
        let copy = Req { name: self.name.clone(), constraints: self.constraints.clone() };
        assert(copy.constraints.deep_view() =~= self.constraints.deep_view());
        copy
    }
}

/// A package in the tree of dependencies, with what it requires.
#[derive(Debug)]
pub struct DepNode {
    pub name: String,
    pub version: Version,
    pub reqs: Vec<Req>,
    pub dependencies: Vec<DepNode>,
    pub constraints_for_this: Vec<Constraint>,
}

impl DepNode {
    /// The stand-in for the project at the root of its tree of dependencies.
    pub fn root(reqs: &Vec<Req>) -> (node: DepNode)
        ensures
            node.name@ == "root"@,
            node.version == (Version { major: 0, minor: 0, patch: 0 }),
            node.reqs.deep_view() == reqs.deep_view(),
            node.dependencies@.len() == 0,
            node.constraints_for_this@.len() == 0,
    {
        let copy = reqs.clone();
        assert(copy.deep_view() =~= reqs.deep_view());
        DepNode {
            name: "root".to_owned(),
            version: Version::new(0, 0, 0),
            reqs: copy,
            dependencies: Vec::new(),
            constraints_for_this: Vec::new(),
        }
    }
}

/// A package of the lock file.
#[derive(Debug)]
pub struct LockPackage {
    pub name: String,
    pub version: String,
    pub source: Option<String>,
    pub dependencies: Option<Vec<String>>,
}

/// What a `LockPackage` holds.
pub struct LockPackageView {
    pub name: Seq<char>,
    pub version: Seq<char>,
    pub source: Option<Seq<char>>,
    pub dependencies: Option<Seq<Seq<char>>>,
}

impl DeepView for LockPackage {
    type V = LockPackageView;

    open spec fn deep_view(&self) -> LockPackageView {
        LockPackageView {
            name: self.name@,
            version: self.version@,
            source: self.source.deep_view(),
            dependencies: self.dependencies.deep_view(),
        }
    }
}

/// The contents of the lock file.
#[derive(Debug)]
pub struct Lock {
    pub package: Option<Vec<LockPackage>>,
    pub metadata: Option<Vec<String>>,
}

/// What a `Lock` holds.
pub struct LockView {
    pub package: Option<Seq<LockPackageView>>,
    pub metadata: Option<Seq<Seq<char>>>,
}

impl Default for Lock {
    /// The lock where there is no lock file.
    fn default() -> (lock: Lock)
        ensures
            lock.deep_view() == (LockView { package: None, metadata: None }),
    {
        Lock { package: None, metadata: None }
    }
}

impl DeepView for Lock {
    type V = LockView;

    open spec fn deep_view(&self) -> LockView {
        LockView { package: self.package.deep_view(), metadata: self.metadata.deep_view() }
    }
}

/// A version holds the numbers that it was made of, and is seen with all of them; without a
/// patch number it has patch zero.
pub proof fn versions_hold_their_numbers(
    major: u32,
    minor: u32,
    patch: u32,
    version: Version,
    short: Version,
)
    requires
        call_ensures(Version::new, (major, minor, patch), version),
        call_ensures(Version::new_short, (major, minor), short),
    ensures
        version.major == major && version.minor == minor && version.patch == patch,
        short.major == major && short.minor == minor && short.patch == 0,
        version.deep_view() == version,
{
}

/// The root of a tree of dependencies requires what the project requires, in order, and
/// nothing has been resolved below it.
pub proof fn root_requires_what_the_project_requires(reqs: &Vec<Req>, node: DepNode, i: int)
    requires
        call_ensures(DepNode::root, (reqs,), node),
    ensures
        node.name@ == "root"@,
        node.version.major == 0 && node.version.minor == 0 && node.version.patch == 0,
        node.reqs@.len() == reqs@.len(),
        0 <= i < reqs@.len() ==> node.reqs@[i].name@ == reqs@[i].name@
            && node.reqs@[i].constraints.deep_view() == reqs@[i].constraints.deep_view(),
        node.dependencies@.len() == 0,
        node.constraints_for_this@.len() == 0,
{
    assert(node.reqs.deep_view().len() == node.reqs@.len());
    assert(reqs.deep_view().len() == reqs@.len());
    if 0 <= i < reqs@.len() {
        assert(node.reqs.deep_view()[i] == node.reqs@[i].deep_view());
        assert(reqs.deep_view()[i] == reqs@[i].deep_view());
    }
}

/// Constraints that are seen alike are alike: the same version exactly, or the same text.
pub proof fn constraints_are_seen_whole(a: Constraint, b: Constraint)
    requires
        a.deep_view() == b.deep_view(),
    ensures
        match (a, b) {
            (Constraint::Exact(v), Constraint::Exact(w)) => v == w,
            (Constraint::Written(s), Constraint::Written(t)) => s@ == t@,
            _ => false,
        },
{
}

/// Where there is no lock file, no package is locked.
pub proof fn no_lock_locks_nothing(lock: Lock)
    requires
        call_ensures(<Lock as Default>::default, (), lock),
    ensures
        lock.package is None,
        lock.metadata is None,
{
    assert(lock.deep_view().package == lock.package.deep_view());
}

} // verus!
