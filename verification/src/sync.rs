//! Bringing the installed packages in line with what is required, one step at a time.
//!
//! The steps that touch the outside world (resolving, fetching, installing, removing,
//! writing the lock) are asked for as actions, and what came of them is told as events.

use crate::packages::{absent_from, packages_not_in};
use crate::version::{DepNode, Req, Version};
use crate::wheel::{
    is_fault, is_selection, is_sound, same_fault, select_release, selection_is_unique, Candidate,
    CandidateView, Os, PackageType, Release, SelectError,
};
use vstd::prelude::*;

verus! {

/// How far a synchronisation has come.
#[derive(Copy, Clone, Debug, PartialEq, Eq, Structural)]
pub enum Stage {
    /// The dependencies are being resolved.
    Resolving,
    /// The releases of this missing package are being fetched.
    Fetching(usize),
    /// This missing package is being installed.
    Installing(usize),
    /// This unneeded package is being removed.
    Removing(usize),
    /// The lock is being written.
    Locking,
    /// All is done.
    Done,
    /// Something failed.
    Failed,
}

/// A synchronisation under way: packages are installed and removed as required, and the lock
/// is written anew.
#[derive(Debug)]
pub struct SyncDeps {
    pub installed: Vec<(String, Version)>,
    pub python: Version,
    pub os: Os,
    /// The packages that are required.
    pub resolved: Vec<(String, Version)>,
    /// The required packages that are not installed.
    pub missing: Vec<(String, Version)>,
    /// The installed packages that are not required.
    pub unneeded: Vec<(String, Version)>,
    pub stage: Stage,
}

/// What a `SyncDeps` holds.
pub struct SyncView {
    pub installed: Seq<(Seq<char>, Version)>,
    pub python: Version,
    pub os: Os,
    pub resolved: Seq<(Seq<char>, Version)>,
    pub missing: Seq<(Seq<char>, Version)>,
    pub unneeded: Seq<(Seq<char>, Version)>,
    pub stage: Stage,
}

impl DeepView for SyncDeps {
    type V = SyncView;

    open spec fn deep_view(&self) -> SyncView {
        SyncView {
            installed: self.installed.deep_view(),
            python: self.python,
            os: self.os,
            resolved: self.resolved.deep_view(),
            missing: self.missing.deep_view(),
            unneeded: self.unneeded.deep_view(),
            stage: self.stage,
        }
    }
}

impl SyncView {
    /// Whether the lists belong together and the stage points into them.
    pub open spec fn well_formed(self) -> bool {
        &&& self.stage is Resolving || self.stage is Failed || {
            &&& self.missing == self.resolved.filter(absent_from(self.installed))
            &&& self.unneeded == self.installed.filter(absent_from(self.resolved))
        }
        &&& match self.stage {
            Stage::Fetching(k) => k < self.missing.len(),
            Stage::Installing(k) => k < self.missing.len(),
            Stage::Removing(k) => k < self.unneeded.len(),
            _ => true,
        }
    }

    /// This synchronisation at another stage.
    pub open spec fn at(self, stage: Stage) -> SyncView {
        SyncView { stage, ..self }
    }

    /// The stage at which missing package `k`, or else what follows, is up.
    pub open spec fn install_stage(self, k: nat) -> Stage {
        if k < self.missing.len() {
            Stage::Fetching(k as usize)
        } else {
            self.removal_stage(0)
        }
    }

    /// The stage at which unneeded package `k`, or else what follows, is up.
    pub open spec fn removal_stage(self, k: nat) -> Stage {
        if k < self.unneeded.len() {
            Stage::Removing(k as usize)
        } else {
            Stage::Locking
        }
    }

    /// This synchronisation once the dependencies are resolved to `packages`.
    pub open spec fn planned(self, packages: Seq<(Seq<char>, Version)>) -> SyncView {
        let plan = SyncView {
            resolved: packages,
            missing: packages.filter(absent_from(self.installed)),
            unneeded: self.installed.filter(absent_from(packages)),
            ..self
        };
        plan.at(plan.install_stage(0))
    }

    /// This synchronisation once the step that it is at has succeeded.
    pub open spec fn advanced(self) -> SyncView {
        match self.stage {
            Stage::Fetching(k) => self.at(Stage::Installing(k)),
            Stage::Installing(k) => self.at(self.install_stage((k + 1) as nat)),
            Stage::Removing(k) => self.at(self.removal_stage((k + 1) as nat)),
            Stage::Locking => self.at(Stage::Done),
            _ => self,
        }
    }

    /// This synchronisation once the next `n` steps have succeeded.
    pub open spec fn after(self, n: nat) -> SyncView
        decreases n,
    {
        if n == 0 {
            self
        } else {
            self.after((n - 1) as nat).advanced()
        }
    }
}

/// Why a synchronisation stops.
#[derive(Debug)]
pub enum SyncError {
    Resolve,
    Fetch,
    /// No release of this package can be taken.
    Select(String, Version, SelectError),
    Install,
    Lock,
}

impl SyncError {
    /// What to tell the user. `version` is how the version of the package in question, if
    /// there is one, is written.
    pub fn message(&self, version: &str) -> (text: String)
        ensures
            match *self {
                SyncError::Resolve => text@ == "Problem resolving dependencies"@,
                SyncError::Fetch => text@ == "Problem getting warehouse data"@,
                SyncError::Select(name, _, error) => text@ == error.told(name@, version@),
                SyncError::Install => text@ == "Problem downloading packages"@,
                SyncError::Lock => text@ == "Problem writing lock file"@,
            },
    {
        match self {
            SyncError::Resolve => "Problem resolving dependencies".to_owned(),
            SyncError::Fetch => "Problem getting warehouse data".to_owned(),
            SyncError::Select(name, _, error) => error.message(name.as_str(), version),
            SyncError::Install => "Problem downloading packages".to_owned(),
            SyncError::Lock => "Problem writing lock file".to_owned(),
        }
    }
}

/// What is to be done next.
#[derive(Debug)]
pub enum SyncAction {
    /// Fetch the releases of this version of this package.
    Fetch(String, Version),
    /// Download and install this release of this version of this package.
    Install(String, Version, Release, PackageType),
    /// Remove this version of this package.
    Remove(String, Version),
    /// Write a lock of these packages.
    WriteLock(Vec<(String, Version)>),
    /// Nothing more.
    Finish,
    /// Give up.
    Abort(SyncError),
}

/// What came of the last action.
#[derive(Debug)]
pub enum SyncEvent {
    /// The dependencies come down to these packages.
    Resolved(Vec<(String, Version)>),
    /// These are the releases that were asked for.
    Releases(Vec<Candidate>),
    /// The package was installed, the package was removed, or the lock was written.
    Succeeded,
    Failed,
}

/// Whether `event` can come at `stage`.
pub open spec fn can_come(stage: Stage, event: SyncEvent) -> bool {
    match stage {
        Stage::Resolving => event is Resolved || event is Failed,
        Stage::Fetching(_) => event is Releases || event is Failed,
        Stage::Installing(_) => event is Succeeded || event is Failed,
        // A package that cannot be removed does not stop a synchronisation.
        Stage::Removing(_) => event is Succeeded,
        Stage::Locking => event is Succeeded || event is Failed,
        Stage::Done => false,
        Stage::Failed => false,
    }
}

/// Whether `action` is what `sync` asks for next, where that does not depend on releases.
pub open spec fn is_request(sync: SyncView, action: SyncAction) -> bool {
    match (sync.stage, action) {
        (Stage::Fetching(k), SyncAction::Fetch(name, version)) => (name@, version)
            == sync.missing[k as int],
        (Stage::Removing(k), SyncAction::Remove(name, version)) => (name@, version)
            == sync.unneeded[k as int],
        (Stage::Locking, SyncAction::WriteLock(packages)) => packages.deep_view()
            == sync.resolved,
        (Stage::Done, SyncAction::Finish) => true,
        _ => false,
    }
}

/// Whether `action` and `after` are what follows when `sync` asked for releases and got
/// `candidates`: installing the selected release, or giving up.
pub open spec fn is_choice(
    sync: SyncView,
    candidates: Seq<CandidateView>,
    after: SyncView,
    action: SyncAction,
) -> bool {
    let k = sync.stage->Fetching_0;
    match action {
        SyncAction::Install(name, version, release, package_type) => exists|at: usize|
            {
                &&& #[trigger] is_selection(candidates, sync.python, sync.os, Ok((at, package_type)))
                &&& release.deep_view() == candidates[at as int].release
                &&& (name@, version) == sync.missing[k as int]
                &&& after == sync.advanced()
            },
        SyncAction::Abort(SyncError::Select(name, version, error)) => {
            &&& is_selection(candidates, sync.python, sync.os, Err(error))
            &&& (name@, version) == sync.missing[k as int]
            &&& after == sync.at(Stage::Failed)
        },
        _ => false,
    }
}

/// Whether `error` is what a failure at `stage` comes to.
pub open spec fn is_failure_at(stage: Stage, error: SyncError) -> bool {
    match stage {
        Stage::Resolving => error is Resolve,
        Stage::Fetching(_) => error is Fetch,
        Stage::Installing(_) => error is Install,
        Stage::Locking => error is Lock,
        _ => false,
    }
}

/// The package at `at`, as a pair of its own.
fn package_at(packages: &Vec<(String, Version)>, at: usize) -> (package: (String, Version))
    requires
        at < packages@.len(),
    ensures
        package.deep_view() == packages.deep_view()[at as int],
{
    (packages[at].0.clone(), packages[at].1)
}

/// A copy of `packages`.
fn copy_packages(packages: &Vec<(String, Version)>) -> (copy: Vec<(String, Version)>)
    ensures
        copy.deep_view() == packages.deep_view(),
{
    let mut copy: Vec<(String, Version)> = Vec::new();
    for i in 0..packages.len()
        invariant
            copy@.len() == i,
            forall|k: int|
                0 <= k < i ==> (#[trigger] copy@[k]).deep_view() == packages@[k].deep_view(),
    {
        copy.push((packages[i].0.clone(), packages[i].1));
    }
    assert(copy.deep_view() =~= packages.deep_view());
    copy
}

impl SyncDeps {
    /// Begins to install what `reqs` call for and to remove what they do not. What is to be
    /// resolved first comes with it.
    pub fn start(
        reqs: &Vec<Req>,
        installed: Vec<(String, Version)>,
        python: Version,
        os: Os,
    ) -> (begun: (SyncDeps, DepNode))
        ensures
            begun.0.deep_view().well_formed(),
            begun.0.stage == Stage::Resolving,
            begun.0.installed == installed,
            begun.0.python == python,
            begun.0.os == os,
            begun.1.name@ == "root"@,
            begun.1.version == (Version { major: 0, minor: 0, patch: 0 }),
            begun.1.reqs.deep_view() == reqs.deep_view(),
            begun.1.dependencies@.len() == 0,
            begun.1.constraints_for_this@.len() == 0,
    {
        let sync = SyncDeps {
            installed,
            python,
            os,
            resolved: Vec::new(),
            missing: Vec::new(),
            unneeded: Vec::new(),
            stage: Stage::Resolving,
        };
        (sync, DepNode::root(reqs))
    }

    /// Asks for what the stage calls for.
    fn request(&self) -> (action: SyncAction)
        requires
            self.deep_view().well_formed(),
            self.stage is Fetching || self.stage is Removing || self.stage is Locking
                || self.stage is Done,
        ensures
            is_request(self.deep_view(), action),
    {
        match self.stage {
            Stage::Fetching(k) => {
                let (name, version) = package_at(&self.missing, k);
                SyncAction::Fetch(name, version)
            },
            Stage::Removing(k) => {
                let (name, version) = package_at(&self.unneeded, k);
                SyncAction::Remove(name, version)
            },
            Stage::Locking => SyncAction::WriteLock(copy_packages(&self.resolved)),
            _ => SyncAction::Finish,
        }
    }

    /// Turns to missing package `k`, or else to what follows.
    fn turn_to_missing(&mut self, k: usize)
        ensures
            final(self).deep_view() == old(self).deep_view().at(
                old(self).deep_view().install_stage(k as nat),
            ),
    {
        if k < self.missing.len() {
            self.stage = Stage::Fetching(k);
        } else {
            self.turn_to_unneeded(0);
        }
    }

    /// Turns to unneeded package `k`, or else to what follows.
    fn turn_to_unneeded(&mut self, k: usize)
        ensures
            final(self).deep_view() == old(self).deep_view().at(
                old(self).deep_view().removal_stage(k as nat),
            ),
    {
        if k < self.unneeded.len() {
            self.stage = Stage::Removing(k);
        } else {
            self.stage = Stage::Locking;
        }
    }

    /// Goes on from the last action, of which `event` came.
    pub fn step(&mut self, event: SyncEvent) -> (action: SyncAction)
        requires
            old(self).deep_view().well_formed(),
            can_come(old(self).stage, event),
        ensures
            final(self).deep_view().well_formed(),
            match event {
                SyncEvent::Resolved(packages) => final(self).deep_view()
                    == old(self).deep_view().planned(packages.deep_view()) && is_request(
                    final(self).deep_view(),
                    action,
                ),
                SyncEvent::Releases(candidates) => is_choice(
                    old(self).deep_view(),
                    candidates.deep_view(),
                    final(self).deep_view(),
                    action,
                ),
                SyncEvent::Succeeded => final(self).deep_view() == old(self).deep_view().advanced()
                    && is_request(final(self).deep_view(), action),
                SyncEvent::Failed => final(self).deep_view() == old(self).deep_view().at(
                    Stage::Failed,
                ) && (action matches SyncAction::Abort(error) && is_failure_at(
                    old(self).stage,
                    error,
                )),
            },
    {
        match event {
            SyncEvent::Resolved(packages) => {
                self.missing = packages_not_in(&packages, &self.installed);
                self.unneeded = packages_not_in(&self.installed, &packages);
                self.resolved = packages;
                self.turn_to_missing(0);
                self.request()
            },
            SyncEvent::Releases(candidates) => {
                let k = match self.stage {
                    Stage::Fetching(k) => k,
                    _ => 0,
                };
                let (name, version) = package_at(&self.missing, k);
                match select_release(&candidates, self.python, self.os) {
                    Ok((at, package_type)) => {
                        self.stage = Stage::Installing(k);
                        SyncAction::Install(
                            name,
                            version,
                            candidates[at].release.clone(),
                            package_type,
                        )
                    },
                    Err(error) => {
                        self.stage = Stage::Failed;
                        SyncAction::Abort(SyncError::Select(name, version, error))
                    },
                }
            },
            SyncEvent::Succeeded => {
                match self.stage {
                    Stage::Installing(k) => {
                        let count: usize = self.missing.len();
                        assert(k < count);
                        self.turn_to_missing(k + 1);
                    },
                    Stage::Removing(k) => {
                        let count: usize = self.unneeded.len();
                        assert(k < count);
                        self.turn_to_unneeded(k + 1);
                    },
                    _ => {
                        self.stage = Stage::Done;
                    },
                }
                self.request()
            },
            SyncEvent::Failed => {
                let error = match self.stage {
                    Stage::Resolving => SyncError::Resolve,
                    Stage::Fetching(_) => SyncError::Fetch,
                    Stage::Installing(_) => SyncError::Install,
                    _ => SyncError::Lock,
                };
                self.stage = Stage::Failed;
                SyncAction::Abort(error)
            },
        }
    }
}

/// The stage of `plan` after `n` steps, counted from the first missing package.
pub open spec fn stage_at(plan: SyncView, n: nat) -> Stage {
    let installs = 2 * plan.missing.len();
    let removals = plan.unneeded.len();
    if n < installs {
        if n % 2 == 0 {
            Stage::Fetching((n / 2) as usize)
        } else {
            Stage::Installing((n / 2) as usize)
        }
    } else if n < installs + removals {
        Stage::Removing((n - installs) as usize)
    } else if n == installs + removals {
        Stage::Locking
    } else {
        Stage::Done
    }
}

/// A synchronisation in which nothing fails comes to an end. It fetches and installs each
/// missing package once, in order; then it removes each unneeded package once, in order;
/// then it writes the lock; then it is done.
pub proof fn sync_runs_through(sync: SyncView, packages: Seq<(Seq<char>, Version)>, n: nat)
    requires
        sync.planned(packages).missing.len() <= usize::MAX,
        sync.planned(packages).unneeded.len() <= usize::MAX,
    ensures
        sync.planned(packages).after(n) == sync.planned(packages).at(
            stage_at(sync.planned(packages), n),
        ),
    decreases n,
{
    if n > 0 {
        sync_runs_through(sync, packages, (n - 1) as nat);
    }
}

/// A synchronisation starts with nothing but what is installed and what it runs on, and with
/// the requirements, in order, to be resolved first.
pub proof fn synchronisation_starts_with_resolving(
    reqs: &Vec<Req>,
    installed: Vec<(String, Version)>,
    python: Version,
    os: Os,
    begun: (SyncDeps, DepNode),
    root: DepNode,
)
    requires
        call_ensures(SyncDeps::start, (reqs, installed, python, os), begun),
        call_ensures(DepNode::root, (reqs,), root),
    ensures
        begun.0.stage == Stage::Resolving,
        begun.0.installed@ == installed@,
        begun.0.python == python,
        begun.0.os == os,
        begun.1.name@ == root.name@,
        begun.1.version == root.version,
        begun.1.reqs.deep_view() == root.reqs.deep_view(),
        begun.1.dependencies@.len() == 0 && begun.1.constraints_for_this@.len() == 0,
{
}

/// Whether a package is the one at `at` in a list.
pub open spec fn is_package_at(
    name: String,
    version: Version,
    packages: Seq<(String, Version)>,
    at: int,
) -> bool {
    0 <= at < packages.len() && name@ == packages[at].0@ && version == packages[at].1
}

/// Whether two lists hold the same packages in the same order.
pub open spec fn are_same_packages(a: Seq<(String, Version)>, b: Seq<(String, Version)>) -> bool {
    &&& a.len() == b.len()
    &&& forall|i: int| 0 <= i < a.len() ==> (#[trigger] a[i]).0@ == b[i].0@ && a[i].1 == b[i].1
}

/// Lists that are seen alike are alike.
proof fn seen_alike(a: Vec<(String, Version)>, b: Vec<(String, Version)>)
    requires
        a.deep_view() == b.deep_view(),
    ensures
        are_same_packages(a@, b@),
{
    assert(a.deep_view().len() == a@.len());
    assert(b.deep_view().len() == b@.len());
    assert forall|i: int| 0 <= i < a@.len() implies (#[trigger] a@[i]).0@ == b@[i].0@ && a@[i].1
        == b@[i].1 by {
        assert(a.deep_view()[i] == (a@[i].0@, a@[i].1));
        assert(b.deep_view()[i] == (b@[i].0@, b@[i].1));
    }
}

/// Whether `sync` is at missing package `missing`, or, where there is no such package, at
/// unneeded package `unneeded`, or, where there is none such either, at the lock; and `action`
/// asks for what is to be done there.
pub open spec fn is_up(sync: SyncDeps, missing: int, unneeded: int, action: SyncAction) -> bool {
    if missing < sync.missing@.len() {
        &&& sync.stage matches Stage::Fetching(k) && k == missing
        &&& action matches SyncAction::Fetch(name, version) && is_package_at(
            name,
            version,
            sync.missing@,
            missing,
        )
    } else if unneeded < sync.unneeded@.len() {
        &&& sync.stage matches Stage::Removing(k) && k == unneeded
        &&& action matches SyncAction::Remove(name, version) && is_package_at(
            name,
            version,
            sync.unneeded@,
            unneeded,
        )
    } else {
        &&& sync.stage is Locking
        &&& action matches SyncAction::WriteLock(packages) && are_same_packages(
            packages@,
            sync.resolved@,
        )
    }
}

/// What a request asks for.
proof fn request_is_up(sync: SyncDeps, missing: int, unneeded: int, action: SyncAction)
    requires
        is_request(sync.deep_view(), action),
        0 <= missing,
        0 <= unneeded,
        sync.stage == (if missing < sync.missing@.len() {
            Stage::Fetching(missing as usize)
        } else if unneeded < sync.unneeded@.len() {
            Stage::Removing(unneeded as usize)
        } else {
            Stage::Locking
        }),
    ensures
        is_up(sync, missing, unneeded, action),
{
    assert(sync.missing@.len() == sync.missing.len());
    assert(sync.unneeded@.len() == sync.unneeded.len());
    if missing < sync.missing@.len() {
        assert(sync.missing.deep_view()[missing] == (
            sync.missing@[missing].0@,
            sync.missing@[missing].1,
        ));
    } else if unneeded < sync.unneeded@.len() {
        assert(sync.unneeded.deep_view()[unneeded] == (
            sync.unneeded@[unneeded].0@,
            sync.unneeded@[unneeded].1,
        ));
    } else {
        seen_alike(action->WriteLock_0, sync.resolved);
    }
}

/// Whether nothing but the stage differs.
pub open spec fn differs_in_stage_alone(before: SyncDeps, after: SyncDeps) -> bool {
    &&& are_same_packages(before.installed@, after.installed@)
    &&& are_same_packages(before.resolved@, after.resolved@)
    &&& are_same_packages(before.missing@, after.missing@)
    &&& are_same_packages(before.unneeded@, after.unneeded@)
    &&& before.python == after.python
    &&& before.os == after.os
}

/// Synchronisations that are seen alike but for the stage differ in the stage alone.
proof fn seen_alike_but_for_the_stage(before: SyncDeps, after: SyncDeps, stage: Stage)
    requires
        after.deep_view() == before.deep_view().at(stage),
    ensures
        differs_in_stage_alone(before, after),
        after.stage == stage,
{
    let (a, b) = (before.deep_view(), after.deep_view());
    assert(a.installed == b.installed && a.resolved == b.resolved);
    assert(a.missing == b.missing && a.unneeded == b.unneeded);
    seen_alike(before.installed, after.installed);
    seen_alike(before.resolved, after.resolved);
    seen_alike(before.missing, after.missing);
    seen_alike(before.unneeded, after.unneeded);
}

/// Once the dependencies are resolved, what is missing is what is required and not installed,
/// and what is unneeded is what is installed and not required. The first missing package is
/// up; where none is missing, the first unneeded one; where there is none, the lock.
pub proof fn resolving_tells_what_is_missing(
    sync: &mut SyncDeps,
    event: SyncEvent,
    packages: &Vec<(String, Version)>,
    missing: Vec<(String, Version)>,
    unneeded: Vec<(String, Version)>,
    action: SyncAction,
)
    requires
        call_ensures(SyncDeps::step, (sync, event), action),
        event == SyncEvent::Resolved(*packages),
        call_ensures(packages_not_in, (packages, &old(sync).installed), missing),
        call_ensures(packages_not_in, (&old(sync).installed, packages), unneeded),
    ensures
        are_same_packages(final(sync).installed@, old(sync).installed@),
        final(sync).python == old(sync).python,
        final(sync).os == old(sync).os,
        are_same_packages(final(sync).resolved@, packages@),
        are_same_packages(final(sync).missing@, missing@),
        are_same_packages(final(sync).unneeded@, unneeded@),
        is_up(*final(sync), 0, 0, action),
{
    let after = *final(sync);
    let plan = old(sync).deep_view().planned(packages.deep_view());
    assert(after.deep_view() == plan);
    assert(after.deep_view().installed == after.installed.deep_view());
    seen_alike(after.installed, old(sync).installed);
    seen_alike(after.resolved, *packages);
    seen_alike(after.missing, missing);
    seen_alike(after.unneeded, unneeded);
    request_is_up(after, 0, 0, action);
}

/// Selecting comes to one thing to tell.
proof fn faults_agree(
    candidates: Seq<CandidateView>,
    python: Version,
    os: Os,
    one: SelectError,
    other: SelectError,
)
    requires
        is_selection(candidates, python, os, Err(one)),
        is_selection(candidates, python, os, Err(other)),
    ensures
        same_fault(one, other),
{
    if !(one is NoRelease) {
        let i = choose|at: int|
            {
                &&& 0 <= at < candidates.len()
                &&& is_fault(#[trigger] candidates[at], python, os, one)
                &&& forall|i: int| 0 <= i < at ==> is_sound(#[trigger] candidates[i], python, os)
            };
        assert(!is_sound(candidates[i], python, os));
    }
    if !(other is NoRelease) {
        let j = choose|at: int|
            {
                &&& 0 <= at < candidates.len()
                &&& is_fault(#[trigger] candidates[at], python, os, other)
                &&& forall|i: int| 0 <= i < at ==> is_sound(#[trigger] candidates[i], python, os)
            };
        assert(!is_sound(candidates[j], python, os));
    }
}

/// Of the releases that were fetched for a missing package, the one that is selected for the
/// Python and the system at hand is installed, as what it was selected as, under the name and
/// version of that package. Where none can be selected, the synchronisation stops and says why
/// and for which package. Nothing else changes.
pub proof fn selected_release_is_installed(
    sync: &mut SyncDeps,
    event: SyncEvent,
    candidates: &Vec<Candidate>,
    selection: Result<(usize, PackageType), SelectError>,
    action: SyncAction,
)
    requires
        call_ensures(SyncDeps::step, (sync, event), action),
        event == SyncEvent::Releases(*candidates),
        old(sync).stage is Fetching,
        old(sync).deep_view().well_formed(),
        call_ensures(
            select_release,
            (candidates, old(sync).python, old(sync).os),
            selection,
        ),
    ensures
        differs_in_stage_alone(*old(sync), *final(sync)),
        ({
            let k = old(sync).stage->Fetching_0;
            match selection {
                Ok((at, kind)) => {
                    &&& final(sync).stage == Stage::Installing(k)
                    &&& action matches SyncAction::Install(name, version, release, package_type)
                        && {
                        &&& is_package_at(name, version, old(sync).missing@, k as int)
                        &&& package_type == kind
                        &&& at < candidates@.len()
                        &&& release.deep_view() == candidates@[at as int].release.deep_view()
                    }
                },
                Err(error) => {
                    &&& final(sync).stage == Stage::Failed
                    &&& action matches SyncAction::Abort(SyncError::Select(name, version, told))
                        && {
                        &&& is_package_at(name, version, old(sync).missing@, k as int)
                        &&& same_fault(told, error)
                    }
                },
            }
        }),
{
    let before = *old(sync);
    let after = *final(sync);
    let k = before.stage->Fetching_0;
    let all = candidates.deep_view();
    assert(before.missing.deep_view()[k as int] == (
        before.missing@[k as int].0@,
        before.missing@[k as int].1,
    ));
    assert(all.len() == candidates@.len());
    match action {
        SyncAction::Install(name, version, release, package_type) => {
            let at = choose|at: usize|
                {
                    &&& #[trigger] is_selection(all, before.python, before.os, Ok((at, package_type)))
                    &&& release.deep_view() == all[at as int].release
                };
            selection_is_unique(all, before.python, before.os, Ok((at, package_type)), selection);
            assert(all[at as int] == candidates@[at as int].deep_view());
            seen_alike_but_for_the_stage(before, after, Stage::Installing(k));
        },
        SyncAction::Abort(SyncError::Select(name, version, told)) => {
            selection_is_unique(all, before.python, before.os, Err(told), selection);
            faults_agree(all, before.python, before.os, told, selection->Err_0);
            seen_alike_but_for_the_stage(before, after, Stage::Failed);
        },
        _ => {},
    }
}

/// Releases that are seen alike are alike.
pub proof fn releases_are_seen_whole(a: Release, b: Release)
    requires
        a.deep_view() == b.deep_view(),
    ensures
        a.packagetype@ == b.packagetype@,
        a.filename@ == b.filename@,
        a.url@ == b.url@,
        a.md5_digest@ == b.md5_digest@,
        a.python_version@ == b.python_version@,
        a.requires_python is Some <==> b.requires_python is Some,
        a.requires_python is Some ==> a.requires_python->0@ == b.requires_python->0@,
{
    assert(a.requires_python.deep_view() == b.requires_python.deep_view());
}

/// Steps that succeed follow one another: once a missing package is installed the next one is
/// up, and then the first unneeded one; once an unneeded package is removed the next one is up,
/// and then the lock; once the lock is written all is done. Nothing but the stage changes.
pub proof fn steps_follow_one_another(sync: &mut SyncDeps, event: SyncEvent, action: SyncAction)
    requires
        call_ensures(SyncDeps::step, (sync, event), action),
        event is Succeeded,
        old(sync).deep_view().well_formed(),
        old(sync).stage is Installing || old(sync).stage is Removing || old(sync).stage is Locking,
    ensures
        differs_in_stage_alone(*old(sync), *final(sync)),
        match old(sync).stage {
            Stage::Installing(k) => is_up(*final(sync), k + 1, 0, action),
            Stage::Removing(k) => is_up(
                *final(sync),
                final(sync).missing@.len() as int,
                k + 1,
                action,
            ),
            _ => final(sync).stage is Done && action is Finish,
        },
{
    let before = *old(sync);
    let after = *final(sync);
    let view = before.deep_view();
    assert(view.missing.len() == before.missing.len());
    assert(view.unneeded.len() == before.unneeded.len());
    match before.stage {
        Stage::Installing(k) => {
            seen_alike_but_for_the_stage(before, after, view.install_stage((k + 1) as nat));
            request_is_up(after, k + 1, 0, action);
        },
        Stage::Removing(k) => {
            seen_alike_but_for_the_stage(before, after, view.removal_stage((k + 1) as nat));
            request_is_up(after, after.missing@.len() as int, k + 1, action);
        },
        _ => {
            seen_alike_but_for_the_stage(before, after, Stage::Done);
        },
    }
}

/// A step that fails stops the synchronisation, and what is told is which step it was.
pub proof fn failed_steps_are_told(sync: &mut SyncDeps, event: SyncEvent, action: SyncAction)
    requires
        call_ensures(SyncDeps::step, (sync, event), action),
        event is Failed,
    ensures
        differs_in_stage_alone(*old(sync), *final(sync)),
        final(sync).stage is Failed,
        action is Abort,
        old(sync).stage is Resolving ==> action->Abort_0 is Resolve,
        old(sync).stage is Fetching ==> action->Abort_0 is Fetch,
        old(sync).stage is Installing ==> action->Abort_0 is Install,
        old(sync).stage is Locking ==> action->Abort_0 is Lock,
{
    seen_alike_but_for_the_stage(*old(sync), *final(sync), Stage::Failed);
}

/// What is told of a release that cannot be selected is told with the name of its package,
/// and what is told of a step that failed names the step, and no version.
pub proof fn errors_are_told(
    error: &SyncError,
    name: &str,
    version: &str,
    select_error: &SelectError,
    text: String,
    told: String,
)
    requires
        call_ensures(SyncError::message, (error, version), text),
        call_ensures(SelectError::message, (select_error, name, version), told),
    ensures
        error is Select && error->Select_0@ == name@ && error->Select_2 == *select_error ==> text@
            == told@,
        error is Resolve ==> text@ == "Problem resolving dependencies"@,
        error is Fetch ==> text@ == "Problem getting warehouse data"@,
        error is Install ==> text@ == "Problem downloading packages"@,
        error is Lock ==> text@ == "Problem writing lock file"@,
{
}

/// Whatever step is made, the stage then points at a package that is there.
pub proof fn stages_point_at_packages(
    sync: &mut SyncDeps,
    event: SyncEvent,
    action: SyncAction,
)
    requires
        call_ensures(SyncDeps::step, (sync, event), action),
    ensures
        final(sync).stage matches Stage::Fetching(k) ==> k < final(sync).missing@.len(),
        final(sync).stage matches Stage::Installing(k) ==> k < final(sync).missing@.len(),
        final(sync).stage matches Stage::Removing(k) ==> k < final(sync).unneeded@.len(),
{
    let view = final(sync).deep_view();
    assert(view.well_formed());
    assert(view.missing.len() == final(sync).missing@.len());
    assert(view.unneeded.len() == final(sync).unneeded@.len());
}

} // verus!
