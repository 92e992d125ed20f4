//! Installed, required and locked packages, and how they compare.

use crate::pattern::{info_of_folder, metadata_folder_is_read, name_and_version, no_newline};
use crate::text::{ascii_lowercase, is_ascii_text, lowercase, to_lowercase};
use crate::version::{
    is_version_text, version_answer, Constraint, Lock, LockPackage, LockPackageView, LockView, Req, Version,
};
use vstd::prelude::*;
use vstd::string::StringExecFns;

verus! {

/// Whether two packages are the same: the names match but for case, the versions are equal.
pub open spec fn is_same_package(a: (Seq<char>, Version), b: (Seq<char>, Version)) -> bool {
    lowercase(a.0) == lowercase(b.0) && a.1 == b.1
}

/// Whether `package` is among `packages`.
pub open spec fn is_among(
    package: (Seq<char>, Version),
    packages: Seq<(Seq<char>, Version)>,
) -> bool {
    exists|i: int| 0 <= i < packages.len() && is_same_package(package, #[trigger] packages[i])
}

/// Says of a package whether it is not among `packages`.
pub open spec fn absent_from(packages: Seq<(Seq<char>, Version)>) -> spec_fn(
    (Seq<char>, Version),
) -> bool {
    |package: (Seq<char>, Version)| !is_among(package, packages)
}

/// Whether a package is among `packages`.
pub fn contains_package(packages: &Vec<(String, Version)>, name: &str, version: Version) -> (found:
    bool)
    ensures
        found == is_among((name@, version), packages.deep_view()),
{
    let lower = to_lowercase(name);
    let ghost all = packages.deep_view();
    for i in 0..packages.len()
        invariant
            all == packages.deep_view(),
            lower@ == lowercase(name@),
            forall|k: int| 0 <= k < i ==> !is_same_package((name@, version), #[trigger] all[k]),
    {
        assert(all[i as int] == packages@[i as int].deep_view());
        let other = to_lowercase(packages[i].0.as_str());
        if lower == other && version == packages[i].1 {
            return true;
        }
    }
    false
}

/// The packages among `packages` that are not among `others`, in order.
pub fn packages_not_in(packages: &Vec<(String, Version)>, others: &Vec<(String, Version)>) -> (rest:
    Vec<(String, Version)>)
    ensures
        rest.deep_view() == packages.deep_view().filter(absent_from(others.deep_view())),
{
    let mut rest: Vec<(String, Version)> = Vec::new();
    let ghost all = packages.deep_view();
    let ghost absent = absent_from(others.deep_view());
    proof {
        reveal(Seq::filter);
        assert(all.take(0).filter(absent) =~= Seq::empty());
        assert(rest.deep_view() =~= Seq::empty());
    }
    for i in 0..packages.len()
        invariant
            all == packages.deep_view(),
            absent == absent_from(others.deep_view()),
            rest.deep_view() == all.take(i as int).filter(absent),
    {
        let ghost before = rest.deep_view();
        if !contains_package(others, packages[i].0.as_str(), packages[i].1) {
            rest.push((packages[i].0.clone(), packages[i].1));
            assert(rest.deep_view() =~= before.push(all[i as int]));
        }
        proof {
            reveal(Seq::filter);
            assert(all.take(i + 1).drop_last() =~= all.take(i as int));
            assert(all[i as int] == packages@[i as int].deep_view());
        }
    }
    assert(all.take(packages@.len() as int) =~= all);
    rest
}

/// The names and version texts in the names of metadata folders among `folders`, in order.
pub open spec fn infos_of(folders: Seq<Seq<char>>) -> Seq<(Seq<char>, Seq<char>)>
    decreases folders.len(),
{
    if folders.len() == 0 {
        Seq::empty()
    } else {
        let rest = infos_of(folders.drop_last());
        match info_of_folder(folders.last()) {
            Some(info) => rest.push(info),
            None => rest,
        }
    }
}

/// Whether `packages` are the first of `infos`, with versions as `read` reads them.
pub open spec fn are_read<F: Fn(&str) -> Option<Version>>(
    read: F,
    infos: Seq<(Seq<char>, Seq<char>)>,
    packages: Seq<(Seq<char>, Version)>,
) -> bool {
    &&& packages.len() <= infos.len()
    &&& forall|i: int|
        0 <= i < packages.len() ==> (#[trigger] packages[i]).0 == infos[i].0 && version_answer(
            read,
            infos[i].1,
            Some(packages[i].1),
        )
}

/// Whether `read` reads the versions of the first of `infos` and refuses the next, `text`.
pub open spec fn is_first_refused<F: Fn(&str) -> Option<Version>>(
    read: F,
    infos: Seq<(Seq<char>, Seq<char>)>,
    text: Seq<char>,
) -> bool {
    exists|packages: Seq<(Seq<char>, Version)>|
        {
            &&& #[trigger] are_read(read, infos, packages)
            &&& packages.len() < infos.len()
            &&& infos[packages.len() as int].1 == text
            &&& version_answer(read, text, None)
        }
}

/// Finds the packages installed, from the names of the folders where they are installed.
/// A version that `read_version` refuses is handed back as an error.
pub fn find_installed<F: Fn(&str) -> Option<Version>>(
    folders: &Vec<String>,
    read_version: F,
) -> (installed: Result<Vec<(String, Version)>, String>)
    requires
        forall|t: &str| call_requires(read_version, (t,)),
    ensures
        ({
            let infos = infos_of(folders.deep_view());
            match installed {
                Ok(packages) => packages@.len() == infos.len() && are_read(
                    read_version,
                    infos,
                    packages.deep_view(),
                ),
                Err(text) => is_first_refused(read_version, infos, text@),
            }
        }),
{
    let mut packages: Vec<(String, Version)> = Vec::new();
    let ghost all = folders.deep_view();
    let ghost infos = infos_of(all);
    assert(all.take(0) =~= Seq::empty());
    for i in 0..folders.len()
        invariant
            forall|t: &str| call_requires(read_version, (t,)),
            all == folders.deep_view(),
            infos == infos_of(all),
            packages@.len() == infos_of(all.take(i as int)).len(),
            are_read(read_version, infos_of(all.take(i as int)), packages.deep_view()),
    {
        let ghost read = packages.deep_view();
        let ghost seen = infos_of(all.take(i as int));
        assert(all.take(i + 1).drop_last() =~= all.take(i as int));
        if let Some((name, version)) = name_and_version(folders[i].as_str()) {
            let ghost next = infos_of(all.take(i + 1));
            assert(next == seen.push((name@, version@)));
            proof {
                infos_grow(all, (i + 1) as nat);
            }
            match read_version(version.as_str()) {
                Some(v) => {
                    packages.push((name, v));
                    assert(packages.deep_view() =~= read.push((name@, v)));
                    assert forall|k: int| 0 <= k < packages.deep_view().len() implies (
                    #[trigger] packages.deep_view()[k]).0 == next[k].0 && version_answer(
                        read_version,
                        next[k].1,
                        Some(packages.deep_view()[k].1),
                    ) by {
                        if k < read.len() {
                            assert(packages.deep_view()[k] == read[k]);
                        }
                    }
                },
                None => {
                    assert forall|k: int| 0 <= k < read.len() implies (#[trigger] read[k]).0
                        == infos[k].0 && version_answer(
                        read_version,
                        infos[k].1,
                        Some(read[k].1),
                    ) by {
                        assert(next[k] == infos[k]);
                    }
                    assert(are_read(read_version, infos, read));
                    assert(next[read.len() as int] == infos[read.len() as int]);
                    return Err(version);
                },
            }
        }
    }
    assert(all.take(folders@.len() as int) =~= all);
    Ok(packages)
}

/// The names and version texts of locked packages.
pub open spec fn lock_infos(packages: Seq<LockPackageView>) -> Seq<(Seq<char>, Seq<char>)> {
    Seq::new(packages.len(), |i: int| (packages[i].name, packages[i].version))
}

/// The locked packages, with their versions as `read_version` reads them.
fn read_lock_packages<F: Fn(&str) -> Option<Version>>(
    lock_packs: &Vec<LockPackage>,
    read_version: F,
) -> (locked: Result<Vec<(String, Version)>, String>)
    requires
        forall|t: &str| call_requires(read_version, (t,)),
    ensures
        ({
            let infos = lock_infos(lock_packs.deep_view());
            match locked {
                Ok(packages) => packages@.len() == infos.len() && are_read(
                    read_version,
                    infos,
                    packages.deep_view(),
                ),
                Err(text) => is_first_refused(read_version, infos, text@),
            }
        }),
{
    let mut packages: Vec<(String, Version)> = Vec::new();
    let ghost infos = lock_infos(lock_packs.deep_view());
    for i in 0..lock_packs.len()
        invariant
            forall|t: &str| call_requires(read_version, (t,)),
            infos == lock_infos(lock_packs.deep_view()),
            packages@.len() == i,
            are_read(read_version, infos, packages.deep_view()),
    {
        let ghost read = packages.deep_view();
        assert(infos[i as int] == (lock_packs@[i as int].name@, lock_packs@[i as int].version@));
        match read_version(lock_packs[i].version.as_str()) {
            Some(version) => {
                packages.push((lock_packs[i].name.clone(), version));
                assert(packages.deep_view() =~= read.push((infos[i as int].0, version)));
            },
            None => {
                return Err(lock_packs[i].version.clone());
            },
        }
    }
    Ok(packages)
}

/// What brings the installed packages in accordance with the lock.
#[derive(Debug)]
pub struct LockSync {
    pub uninstall: Vec<(String, Version)>,
    pub install: Vec<(String, Version)>,
}

/// Finds what to uninstall and what to install to be in accordance with the lock. A locked
/// version that `read_version` refuses is handed back as an error.
pub fn sync_packages_with_lock<F: Fn(&str) -> Option<Version>>(
    lock_packs: &Vec<LockPackage>,
    installed: &Vec<(String, Version)>,
    read_version: F,
) -> (sync: Result<LockSync, String>)
    requires
        forall|t: &str| call_requires(read_version, (t,)),
    ensures
        ({
            let infos = lock_infos(lock_packs.deep_view());
            match sync {
                Ok(sync) => exists|locked: Seq<(Seq<char>, Version)>|
                    {
                        &&& locked.len() == infos.len()
                        &&& #[trigger] are_read(read_version, infos, locked)
                        &&& sync.uninstall.deep_view() == installed.deep_view().filter(
                            absent_from(locked),
                        )
                        &&& sync.install.deep_view() == locked.filter(
                            absent_from(installed.deep_view()),
                        )
                    },
                Err(text) => is_first_refused(read_version, infos, text@),
            }
        }),
{
    let locked = match read_lock_packages(lock_packs, read_version) {
        Ok(locked) => locked,
        Err(text) => {
            return Err(text);
        },
    };
    let uninstall = packages_not_in(installed, &locked);
    let install = packages_not_in(&locked, installed);
    Ok(LockSync { uninstall, install })
}

/// Whether `show` can write the versions of `packages` out as `texts`, one for one.
pub open spec fn are_version_texts<F: Fn(&Version) -> String>(
    show: F,
    packages: Seq<(Seq<char>, Version)>,
    texts: Seq<Seq<char>>,
) -> bool {
    &&& texts.len() == packages.len()
    &&& forall|i: int|
        0 <= i < packages.len() ==> is_version_text(show, packages[i].1, #[trigger] texts[i])
}

/// What the lock says of a package, whose version is written `version`.
pub open spec fn lock_entry(name: Seq<char>, version: Seq<char>) -> LockPackageView {
    LockPackageView {
        name,
        version,
        source: Some("pypi+https://pypi.org/pypi/"@ + name + "/"@ + version + "/json"@),
        dependencies: None,
    }
}

/// The lock of `packages`, whose versions are written `texts`.
pub open spec fn lock_of(
    packages: Seq<(Seq<char>, Version)>,
    texts: Seq<Seq<char>>,
) -> LockView {
    LockView {
        package: Some(Seq::new(packages.len(), |i: int| lock_entry(packages[i].0, texts[i]))),
        metadata: None,
    }
}

/// The lock of the packages that were resolved, with their versions as `show_version`
/// writes them out.
pub fn new_lock<F: Fn(&Version) -> String>(
    resolved: &Vec<(String, Version)>,
    show_version: F,
) -> (lock: Lock)
    requires
        forall|v: &Version| call_requires(show_version, (v,)),
    ensures
        exists|texts: Seq<Seq<char>>|
            #[trigger] are_version_texts(show_version, resolved.deep_view(), texts)
                && lock.deep_view() == lock_of(resolved.deep_view(), texts),
{
    let mut packages: Vec<LockPackage> = Vec::new();
    let ghost all = resolved.deep_view();
    let ghost mut texts: Seq<Seq<char>> = Seq::empty();
    for i in 0..resolved.len()
        invariant
            forall|v: &Version| call_requires(show_version, (v,)),
            all == resolved.deep_view(),
            texts.len() == i,
            packages@.len() == i,
            forall|k: int|
                0 <= k < i ==> is_version_text(show_version, all[k].1, #[trigger] texts[k]),
            forall|k: int|
                0 <= k < i ==> (#[trigger] packages@[k]).deep_view() == lock_entry(
                    all[k].0,
                    texts[k],
                ),
    {
        let shown = show_version(&resolved[i].1);
        let name = resolved[i].0.as_str();
        assert(all[i as int] == resolved@[i as int].deep_view());
        let mut source = "pypi+https://pypi.org/pypi/".to_owned();
        source.append(name);
        source.append("/");
        source.append(shown.as_str());
        source.append("/json");
        proof {
            texts = texts.push(shown@);
        }
        assert(is_version_text(show_version, all[i as int].1, texts[i as int]));
        packages.push(
            LockPackage {
                name: name.to_owned(),
                version: shown,
                source: Some(source),
                dependencies: None,
            },
        );
        assert(packages@[i as int].deep_view() == lock_entry(all[i as int].0, texts[i as int]));
    }
    let lock = Lock { package: Some(packages), metadata: None };
    assert(lock.deep_view().package->0 =~= lock_of(all, texts).package->0);
    assert(are_version_texts(show_version, all, texts));
    lock
}

/// Whether `allows` can let `version` past all of `constraints`.
pub open spec fn all_allow<F: Fn(&Constraint, &Version) -> bool>(
    allows: F,
    constraints: Seq<Constraint>,
    version: Version,
) -> bool {
    forall|i: int|
        0 <= i < constraints.len() ==> call_ensures(
            allows,
            (&#[trigger] constraints[i], &version),
            true,
        )
}

/// Whether `allows` can stop `version` at one of `constraints`.
pub open spec fn some_stops<F: Fn(&Constraint, &Version) -> bool>(
    allows: F,
    constraints: Seq<Constraint>,
    version: Version,
) -> bool {
    exists|i: int|
        0 <= i < constraints.len() && call_ensures(
            allows,
            (&#[trigger] constraints[i], &version),
            false,
        )
}

/// Whether `after` is what the locked `package` makes of the constraints `before` on the
/// package `name`: they are fixed to the locked version where it is compatible with them.
pub open spec fn locks_once<F: Fn(&Constraint, &Version) -> bool>(
    allows: F,
    name: Seq<char>,
    package: (Seq<char>, Version),
    before: Seq<Constraint>,
    after: Seq<Constraint>,
) -> bool {
    if package.0 == name {
        ||| all_allow(allows, before, package.1) && after == seq![Constraint::Exact(package.1)]
        ||| some_stops(allows, before, package.1) && after == before
    } else {
        after == before
    }
}

/// Whether `after` is what the locked `packages`, one after the other, make of the
/// constraints `before` on the package `name`.
pub open spec fn locks<F: Fn(&Constraint, &Version) -> bool>(
    allows: F,
    name: Seq<char>,
    packages: Seq<(Seq<char>, Version)>,
    before: Seq<Constraint>,
    after: Seq<Constraint>,
) -> bool
    decreases packages.len(),
{
    if packages.len() == 0 {
        after == before
    } else {
        exists|between: Seq<Constraint>|
            locks(allows, name, packages.drop_last(), before, between) && #[trigger] locks_once(
                allows,
                name,
                packages.last(),
                between,
                after,
            )
    }
}

/// Whether `version` is compatible with all of `constraints`, as far as `allows` says.
fn is_compatible_with_all<F: Fn(&Constraint, &Version) -> bool>(
    constraints: &Vec<Constraint>,
    version: Version,
    allows: &F,
) -> (compatible: bool)
    requires
        forall|c: &Constraint, v: &Version| call_requires(*allows, (c, v)),
    ensures
        compatible ==> all_allow(*allows, constraints@, version),
        !compatible ==> some_stops(*allows, constraints@, version),
{
    for i in 0..constraints.len()
        invariant
            forall|c: &Constraint, v: &Version| call_requires(*allows, (c, v)),
            forall|k: int|
                0 <= k < i ==> call_ensures(
                    *allows,
                    (&#[trigger] constraints@[k], &version),
                    true,
                ),
    {
        if !allows(&constraints[i], &version) {
            assert(call_ensures(*allows, (&constraints@[i as int], &version), false));
            return false;
        }
    }
    true
}

/// The requirement `req` after the locked packages have been applied to it.
fn lock_requirement<F: Fn(&Constraint, &Version) -> bool>(
    req: &Req,
    locked: &Vec<(String, Version)>,
    allows: &F,
) -> (after: Req)
    requires
        forall|c: &Constraint, v: &Version| call_requires(*allows, (c, v)),
    ensures
        after.name@ == req.name@,
        locks(*allows, req.name@, locked.deep_view(), req.constraints@, after.constraints@),
{
    let mut constraints = req.constraints.clone();
    assert(constraints@ =~= req.constraints@);
    let ghost all = locked.deep_view();
    let ghost before = constraints@;
    for i in 0..locked.len()
        invariant
            forall|c: &Constraint, v: &Version| call_requires(*allows, (c, v)),
            all == locked.deep_view(),
            locks(*allows, req.name@, all.take(i as int), before, constraints@),
    {
        let ghost between = constraints@;
        assert(all.take(i + 1).drop_last() =~= all.take(i as int));
        assert(all.take(i + 1).last() == locked@[i as int].deep_view());
        if locked[i].0 == req.name {
            if is_compatible_with_all(&constraints, locked[i].1, allows) {
                let mut fixed: Vec<Constraint> = Vec::new();
                fixed.push(Constraint::Exact(locked[i].1));
                constraints = fixed;
                assert(constraints@ =~= seq![Constraint::Exact(locked@[i as int].1)]);
            }
        }
        assert(locks_once(
            *allows,
            req.name@,
            all.take(i + 1).last(),
            between,
            constraints@,
        ));
    }
    assert(all.take(locked@.len() as int) =~= all);
    Req { name: req.name.clone(), constraints }
}

/// Whether `after` are the requirements `before`, fixed to `locked` where that is compatible.
pub open spec fn are_locked<F: Fn(&Constraint, &Version) -> bool>(
    allows: F,
    locked: Seq<(Seq<char>, Version)>,
    before: Seq<Req>,
    after: Seq<Req>,
) -> bool {
    &&& after.len() == before.len()
    &&& forall|i: int|
        0 <= i < before.len() ==> (#[trigger] after[i]).name@ == before[i].name@ && locks(
            allows,
            before[i].name@,
            locked,
            before[i].constraints@,
            after[i].constraints@,
        )
}

/// The requirements to install: those of the project, each fixed to the locked version of
/// its package where that is compatible, and then those that are added. `is_compatible`
/// says whether a version satisfies a constraint. A locked version that `read_version`
/// refuses is handed back as an error, if there is a requirement to compare it with.
pub fn requirements_to_install<
    F: Fn(&str) -> Option<Version>,
    G: Fn(&Constraint, &Version) -> bool,
>(
    dependencies: &Vec<Req>,
    lock: &Lock,
    added: Vec<Req>,
    read_version: F,
    is_compatible: G,
) -> (reqs: Result<Vec<Req>, String>)
    requires
        forall|t: &str| call_requires(read_version, (t,)),
        forall|c: &Constraint, v: &Version| call_requires(is_compatible, (c, v)),
    ensures
        match reqs {
            Ok(reqs) => {
                let n = dependencies@.len() as int;
                &&& reqs@.len() == n + added@.len()
                &&& reqs@.skip(n) == added@
                &&& n > 0 ==> match lock.package {
                    Some(packs) => exists|locked: Seq<(Seq<char>, Version)>|
                        {
                            &&& locked.len() == packs@.len()
                            &&& #[trigger] are_read(
                                read_version,
                                lock_infos(packs.deep_view()),
                                locked,
                            )
                            &&& are_locked(is_compatible, locked, dependencies@, reqs@.take(n))
                        },
                    None => are_locked(
                        is_compatible,
                        Seq::empty(),
                        dependencies@,
                        reqs@.take(n),
                    ),
                }
            },
            Err(text) => dependencies@.len() > 0 && lock.package is Some && is_first_refused(
                read_version,
                lock_infos(lock.package->0.deep_view()),
                text@,
            ),
        },
{
    let mut added = added;
    let ghost extra = added@;
    let mut reqs: Vec<Req> = Vec::new();
    if dependencies.len() > 0 {
        let locked = match &lock.package {
            Some(packs) => match read_lock_packages(packs, read_version) {
                Ok(locked) => locked,
                Err(text) => {
                    return Err(text);
                },
            },
            None => Vec::new(),
        };
        assert(lock.package is None ==> locked.deep_view() =~= Seq::empty());
        for i in 0..dependencies.len()
            invariant
                forall|c: &Constraint, v: &Version| call_requires(is_compatible, (c, v)),
                reqs@.len() == i,
                forall|k: int|
                    0 <= k < i ==> (#[trigger] reqs@[k]).name@ == dependencies@[k].name@ && locks(
                        is_compatible,
                        dependencies@[k].name@,
                        locked.deep_view(),
                        dependencies@[k].constraints@,
                        reqs@[k].constraints@,
                    ),
        {
            let req = lock_requirement(&dependencies[i], &locked, &is_compatible);
            reqs.push(req);
        }
        assert(are_locked(is_compatible, locked.deep_view(), dependencies@, reqs@));
    }
    let ghost fixed = reqs@;
    reqs.append(&mut added);
    assert(reqs@.take(dependencies@.len() as int) =~= fixed);
    assert(reqs@.skip(dependencies@.len() as int) =~= extra);
    Ok(reqs)
}

/// Being the same package is an equivalence.
pub proof fn same_package_is_an_equivalence(
    a: (Seq<char>, Version),
    b: (Seq<char>, Version),
    c: (Seq<char>, Version),
)
    ensures
        is_same_package(a, a),
        is_same_package(a, b) ==> is_same_package(b, a),
        is_same_package(a, b) && is_same_package(b, c) ==> is_same_package(a, c),
{
}

/// Case does not preclude a match: names that differ in nothing but the case of ASCII
/// letters name the same package.
pub proof fn case_does_not_matter(a: Seq<char>, b: Seq<char>, version: Version)
    requires
        is_ascii_text(a),
        is_ascii_text(b),
        ascii_lowercase(a) == ascii_lowercase(b),
    ensures
        is_same_package((a, version), (b, version)),
{
}

/// The packages that are installed once `removed` are gone and `added` have come.
pub open spec fn exchanged(
    installed: Seq<(Seq<char>, Version)>,
    removed: Seq<(Seq<char>, Version)>,
    added: Seq<(Seq<char>, Version)>,
) -> Seq<(Seq<char>, Version)> {
    installed.filter(absent_from(removed)) + added
}

/// An installed package is among those to remove if and only if it is not wanted.
proof fn removed_are_unwanted(
    installed: Seq<(Seq<char>, Version)>,
    wanted: Seq<(Seq<char>, Version)>,
    package: (Seq<char>, Version),
)
    requires
        installed.contains(package),
    ensures
        is_among(package, installed.filter(absent_from(wanted))) == !is_among(package, wanted),
{
    let removed = installed.filter(absent_from(wanted));
    if is_among(package, removed) {
        let i = choose|i: int|
            0 <= i < removed.len() && is_same_package(package, #[trigger] removed[i]);
        installed.lemma_filter_pred(absent_from(wanted), i);
        if is_among(package, wanted) {
            let j = choose|j: int|
                0 <= j < wanted.len() && is_same_package(package, #[trigger] wanted[j]);
            assert(is_same_package(removed[i], wanted[j]));
        }
    } else if !is_among(package, wanted) {
        let i = installed.index_of(package);
        installed.lemma_filter_contains(absent_from(wanted), i);
        let at = removed.index_of(package);
        assert(is_same_package(package, removed[at]));
    }
}

/// Removing what is not required and adding what is missing leaves exactly what is
/// required: a package is then installed if and only if it is among `resolved`.
pub proof fn sync_leaves_what_is_required(
    installed: Seq<(Seq<char>, Version)>,
    resolved: Seq<(Seq<char>, Version)>,
    package: (Seq<char>, Version),
)
    ensures
        is_among(
            package,
            exchanged(
                installed,
                installed.filter(absent_from(resolved)),
                resolved.filter(absent_from(installed)),
            ),
        ) == is_among(package, resolved),
{
    let removed = installed.filter(absent_from(resolved));
    let stays = absent_from(removed);
    let missing = absent_from(installed);
    let kept = installed.filter(stays);
    let added = resolved.filter(missing);
    let after = exchanged(installed, removed, added);
    assert(after == kept + added);
    if is_among(package, after) {
        let i = choose|i: int|
            0 <= i < after.len() && is_same_package(package, #[trigger] after[i]);
        if i < kept.len() {
            assert(kept[i] == after[i]);
            installed.lemma_filter_pred(stays, i);
            installed.lemma_filter_contains_rev(stays, kept[i]);
            removed_are_unwanted(installed, resolved, kept[i]);
            let j = choose|j: int|
                0 <= j < resolved.len() && is_same_package(kept[i], #[trigger] resolved[j]);
            assert(is_same_package(package, resolved[j]));
        } else {
            let found = added[i - kept.len()];
            assert(found == after[i]);
            resolved.lemma_filter_contains_rev(missing, found);
            let j = choose|j: int| 0 <= j < resolved.len() && resolved[j] == found;
            assert(is_same_package(package, resolved[j]));
        }
    }
    if is_among(package, resolved) {
        let j = choose|j: int|
            0 <= j < resolved.len() && is_same_package(package, #[trigger] resolved[j]);
        if missing(resolved[j]) {
            resolved.lemma_filter_contains(missing, j);
            let at = choose|at: int| 0 <= at < added.len() && added[at] == resolved[j];
            assert(after[kept.len() + at] == resolved[j]);
        } else {
            let i = choose|i: int|
                0 <= i < installed.len() && is_same_package(resolved[j], #[trigger] installed[i]);
            assert(is_same_package(installed[i], resolved[j]));
            assert(is_same_package(package, installed[i]));
            removed_are_unwanted(installed, resolved, installed[i]);
            installed.lemma_filter_contains(stays, i);
            let at = choose|at: int| 0 <= at < kept.len() && kept[at] == installed[i];
            assert(after[at] == installed[i]);
        }
    }
}

/// What `sync_packages_with_lock` selects brings the installed packages in accordance with
/// the lock: a package is then installed if and only if it is locked.
pub proof fn lock_sync_leaves_what_is_locked(
    sync: LockSync,
    installed: Seq<(Seq<char>, Version)>,
    locked: Seq<(Seq<char>, Version)>,
    package: (Seq<char>, Version),
)
    requires
        sync.uninstall.deep_view() == installed.filter(absent_from(locked)),
        sync.install.deep_view() == locked.filter(absent_from(installed)),
    ensures
        is_among(
            package,
            exchanged(installed, sync.uninstall.deep_view(), sync.install.deep_view()),
        ) == is_among(package, locked),
{
    sync_leaves_what_is_required(installed, locked, package);
}

/// A lock that is written and read again holds the packages that were locked, where
/// `read_version` answers to each written version with that version alone.
pub proof fn lock_is_read_back<F: Fn(&str) -> Option<Version>>(
    read_version: F,
    packages: Seq<(Seq<char>, Version)>,
    texts: Seq<Seq<char>>,
    locked: Seq<(Seq<char>, Version)>,
)
    requires
        texts.len() == packages.len(),
        forall|i: int, answer: Option<Version>|
            0 <= i < packages.len() && #[trigger] version_answer(read_version, texts[i], answer)
                ==> answer == Some(packages[i].1),
        locked.len() == packages.len(),
        are_read(read_version, lock_infos(lock_of(packages, texts).package->0), locked),
    ensures
        locked == packages,
{
    assert forall|i: int| 0 <= i < packages.len() implies locked[i] == packages[i] by {
        assert(version_answer(read_version, texts[i], Some(locked[i].1)));
    }
    assert(locked =~= packages);
}

/// What the first folders hold comes first in what all of them hold.
proof fn infos_grow(folders: Seq<Seq<char>>, n: nat)
    requires
        n <= folders.len(),
    ensures
        infos_of(folders.take(n as int)).is_prefix_of(infos_of(folders)),
    decreases folders.len(),
{
    if n < folders.len() {
        infos_grow(folders.drop_last(), n);
        assert(folders.drop_last().take(n as int) =~= folders.take(n as int));
    } else {
        assert(folders.take(n as int) =~= folders);
    }
}

/// Packages whose versions differ in any of the three numbers are different packages,
/// whatever their names.
pub proof fn other_versions_are_other_packages(
    a: (Seq<char>, Version),
    b: (Seq<char>, Version),
)
    requires
        a.1.major != b.1.major || a.1.minor != b.1.minor || a.1.patch != b.1.patch,
    ensures
        !is_same_package(a, b),
{
}

/// Packages whose names differ in lower case are different packages, and those whose names
/// agree there and whose versions agree in all three numbers are the same.
pub proof fn name_and_version_make_the_package(a: (Seq<char>, Version), b: (Seq<char>, Version))
    ensures
        lowercase(a.0) != lowercase(b.0) ==> !is_same_package(a, b),
        lowercase(a.0) == lowercase(b.0) && a.1.major == b.1.major && a.1.minor == b.1.minor
            && a.1.patch == b.1.patch ==> is_same_package(a, b),
{
}

/// A package is contained in a list exactly if the list holds one whose name has the same
/// lower case and whose version has the same three numbers.
pub proof fn contained_packages_agree_in_name_and_version(
    packages: &Vec<(String, Version)>,
    name: &str,
    version: Version,
    found: bool,
)
    requires
        call_ensures(contains_package, (packages, name, version), found),
    ensures
        forall|i: int|
            0 <= i < packages@.len() && lowercase((#[trigger] packages@[i]).0@) == lowercase(name@)
                && packages@[i].1.major == version.major && packages@[i].1.minor == version.minor
                && packages@[i].1.patch == version.patch ==> found,
        found ==> exists|i: int|
            0 <= i < packages@.len() && lowercase((#[trigger] packages@[i]).0@) == lowercase(name@)
                && packages@[i].1.major == version.major && packages@[i].1.minor == version.minor
                && packages@[i].1.patch == version.patch,
{
    let all = packages.deep_view();
    assert(forall|i: int| 0 <= i < all.len() ==> #[trigger] all[i] == (packages@[i].0@, packages@[i].1));
    assert forall|i: int|
        0 <= i < packages@.len() && lowercase((#[trigger] packages@[i]).0@) == lowercase(name@)
            && packages@[i].1.major == version.major && packages@[i].1.minor == version.minor
            && packages@[i].1.patch == version.patch implies found by {
        assert(is_same_package((name@, version), all[i]));
    }
    if found {
        let i = choose|i: int|
            0 <= i < all.len() && is_same_package((name@, version), #[trigger] all[i]);
        assert(all[i] == (packages@[i].0@, packages@[i].1));
    }
}

/// Whether `longer` holds what `shorter` holds, and one package more behind it.
pub open spec fn is_longer_by(
    shorter: Seq<(String, Version)>,
    longer: Seq<(String, Version)>,
    package: (Seq<char>, Version),
) -> bool {
    &&& longer.len() == shorter.len() + 1
    &&& forall|i: int|
        0 <= i < shorter.len() ==> (#[trigger] longer[i]).0@ == shorter[i].0@ && longer[i].1
            == shorter[i].1
    &&& longer[shorter.len() as int].0@ == package.0
    &&& longer[shorter.len() as int].1 == package.1
}

/// Of one package more at the end of a list, nothing more is left where the other list
/// contains it, and the package itself, at the end, where it does not. Of an empty list
/// nothing is left.
pub proof fn packages_are_left_one_by_one(
    shorter: &Vec<(String, Version)>,
    longer: &Vec<(String, Version)>,
    others: &Vec<(String, Version)>,
    name: &str,
    version: Version,
    left: Vec<(String, Version)>,
    more_left: Vec<(String, Version)>,
    found: bool,
)
    requires
        call_ensures(packages_not_in, (shorter, others), left),
        call_ensures(packages_not_in, (longer, others), more_left),
        call_ensures(contains_package, (others, name, version), found),
        is_longer_by(shorter@, longer@, (name@, version)),
    ensures
        shorter@.len() == 0 ==> left@.len() == 0,
        found ==> more_left.deep_view() == left.deep_view(),
        !found ==> is_longer_by(left@, more_left@, (name@, version)),
{
    reveal(Seq::filter);
    let one = longer.deep_view();
    assert(one.last() == (longer@.last().0@, longer@.last().1));
    assert(one.drop_last() =~= shorter.deep_view()) by {
        assert forall|i: int| 0 <= i < shorter@.len() implies one[i] == shorter.deep_view()[i] by {
            assert(longer@[i].0@ == shorter@[i].0@);
        }
    }
    assert(left.deep_view().len() == left@.len());
    if !found {
        let more = more_left.deep_view();
        assert(more == left.deep_view().push((name@, version)));
        assert(more.len() == more_left@.len());
        assert forall|i: int| 0 <= i < left@.len() implies (#[trigger] more_left@[i]).0@
            == left@[i].0@ && more_left@[i].1 == left@[i].1 by {
            assert(more[i] == (more_left@[i].0@, more_left@[i].1));
            assert(left.deep_view()[i] == (left@[i].0@, left@[i].1));
        }
        assert(more[left@.len() as int] == (
            more_left@[left@.len() as int].0@,
            more_left@[left@.len() as int].1,
        ));
    }
}

/// After a synchronisation every required package is there, under its name and with exactly
/// the version that is required.
pub proof fn required_versions_are_there(
    installed: Seq<(Seq<char>, Version)>,
    resolved: Seq<(Seq<char>, Version)>,
    after: Seq<(Seq<char>, Version)>,
    i: int,
)
    requires
        after == exchanged(
            installed,
            installed.filter(absent_from(resolved)),
            resolved.filter(absent_from(installed)),
        ),
        0 <= i < resolved.len(),
    ensures
        exists|j: int|
            0 <= j < after.len() && lowercase((#[trigger] after[j]).0) == lowercase(resolved[i].0)
                && after[j].1.major == resolved[i].1.major && after[j].1.minor
                == resolved[i].1.minor && after[j].1.patch == resolved[i].1.patch,
{
    let package = resolved[i];
    assert(is_same_package(package, resolved[i]));
    sync_leaves_what_is_required(installed, resolved, package);
    let j = choose|j: int| 0 <= j < after.len() && is_same_package(package, #[trigger] after[j]);
    name_and_version_make_the_package(package, after[j]);
}

/// After a synchronisation nothing is there that is not required, under its name and with
/// exactly its version.
pub proof fn only_required_versions_are_there(
    installed: Seq<(Seq<char>, Version)>,
    resolved: Seq<(Seq<char>, Version)>,
    after: Seq<(Seq<char>, Version)>,
    j: int,
)
    requires
        after == exchanged(
            installed,
            installed.filter(absent_from(resolved)),
            resolved.filter(absent_from(installed)),
        ),
        0 <= j < after.len(),
    ensures
        exists|i: int|
            0 <= i < resolved.len() && lowercase((#[trigger] resolved[i]).0) == lowercase(
                after[j].0,
            ) && resolved[i].1.major == after[j].1.major && resolved[i].1.minor
                == after[j].1.minor && resolved[i].1.patch == after[j].1.patch,
{
    let package = after[j];
    assert(is_same_package(package, after[j]));
    sync_leaves_what_is_required(installed, resolved, package);
    let i = choose|i: int|
        0 <= i < resolved.len() && is_same_package(package, #[trigger] resolved[i]);
    name_and_version_make_the_package(package, resolved[i]);
}

/// Whether `read` answers `answer` to `text`, and nothing else.
pub open spec fn answers_only<F: Fn(&str) -> Option<Version>>(
    read: F,
    text: Seq<char>,
    answer: Option<Version>,
) -> bool {
    forall|t: &str, a: Option<Version>|
        t@ == text && #[trigger] call_ensures(read, (t,), a) ==> a == answer
}

/// What one folder more adds to what folders hold.
proof fn infos_of_more(folders: Seq<Seq<char>>, folder: Seq<char>)
    ensures
        infos_of(folders.push(folder)) == (match info_of_folder(folder) {
            Some(info) => infos_of(folders).push(info),
            None => infos_of(folders),
        }),
{
    assert(folders.push(folder).drop_last() =~= folders);
}

/// What folders hold that all give a name and a version.
proof fn infos_of_metadata(folders: Seq<Seq<char>>, infos: Seq<(Seq<char>, Seq<char>)>)
    requires
        infos.len() == folders.len(),
        forall|i: int|
            0 <= i < folders.len() ==> info_of_folder(#[trigger] folders[i]) == Some(infos[i]),
    ensures
        infos_of(folders) == infos,
    decreases folders.len(),
{
    if folders.len() == 0 {
        assert(infos =~= Seq::empty());
    } else {
        infos_of_metadata(folders.drop_last(), infos.drop_last());
        assert(info_of_folder(folders[folders.len() - 1]) == Some(infos.last()));
        assert(infos =~= infos.drop_last().push(infos.last()));
    }
}

/// Packages are found installed, in order, under the names and with the versions that their
/// metadata folders give, as `read_version` reads them.
pub proof fn installed_packages_are_found<F: Fn(&str) -> Option<Version>>(
    folders: &Vec<String>,
    read_version: F,
    packages: Seq<(Seq<char>, Version)>,
    texts: Seq<Seq<char>>,
    found: Result<Vec<(String, Version)>, String>,
)
    requires
        call_ensures(find_installed::<F>, (folders, read_version), found),
        packages.len() == texts.len() == folders@.len(),
        forall|i: int|
            0 <= i < packages.len() ==> {
                &&& (#[trigger] folders@[i])@ == packages[i].0 + seq!['-'] + texts[i]
                    + ".dist-info"@ || folders@[i]@ == packages[i].0 + seq!['-'] + texts[i]
                    + ".egg-info"@
                &&& no_newline(packages[i].0) && no_newline(texts[i])
                &&& !packages[i].0.contains('-')
                &&& answers_only(read_version, texts[i], Some(packages[i].1))
            },
    ensures
        found matches Ok(all) && all@.len() == packages.len() && forall|i: int|
            0 <= i < packages.len() ==> (#[trigger] all@[i]).0@ == packages[i].0 && all@[i].1
                == packages[i].1,
{
    let infos = Seq::new(texts.len(), |i: int| (packages[i].0, texts[i]));
    let seen = folders.deep_view();
    assert forall|i: int| 0 <= i < seen.len() implies info_of_folder(#[trigger] seen[i]) == Some(
        infos[i],
    ) by {
        assert(seen[i] == folders@[i]@);
        metadata_folder_is_read(packages[i].0, texts[i]);
    }
    infos_of_metadata(seen, infos);
    match found {
        Ok(all) => {
            assert forall|i: int| 0 <= i < packages.len() implies (#[trigger] all@[i]).0@
                == packages[i].0 && all@[i].1 == packages[i].1 by {
                assert(all.deep_view()[i] == (all@[i].0@, all@[i].1));
                assert(all.deep_view()[i].0 == infos[i].0);
                assert(folders@[i]@ == seen[i]);
            }
        },
        Err(text) => {
            let read = choose|read: Seq<(Seq<char>, Version)>|
                {
                    &&& #[trigger] are_read(read_version, infos, read)
                    &&& read.len() < infos.len()
                    &&& infos[read.len() as int].1 == text@
                    &&& version_answer(read_version, text@, None)
                };
            assert(folders@[read.len() as int]@ == seen[read.len() as int]);
        },
    }
}

/// Whether `read` has one answer at most to each text.
pub open spec fn is_single_valued<F: Fn(&str) -> Option<Version>>(read: F) -> bool {
    forall|s: &str, t: &str, a: Option<Version>, b: Option<Version>|
        s@ == t@ && #[trigger] call_ensures(read, (s,), a) && #[trigger] call_ensures(
            read,
            (t,),
            b,
        ) ==> a == b
}

/// A reader with one answer to each text gives one answer.
proof fn answer_is_unique<F: Fn(&str) -> Option<Version>>(
    read: F,
    text: Seq<char>,
    one: Option<Version>,
    other: Option<Version>,
)
    requires
        is_single_valued(read),
        version_answer(read, text, one),
        version_answer(read, text, other),
    ensures
        one == other,
{
    let s = choose|t: &str| t@ == text && #[trigger] call_ensures(read, (t,), one);
    let t = choose|t: &str| t@ == text && #[trigger] call_ensures(read, (t,), other);
    assert(call_ensures(read, (s,), one) && call_ensures(read, (t,), other));
}

/// Whether reading the versions of `infos` can come to `outcome`: all packages, or the first
/// text that is refused.
spec fn is_outcome<F: Fn(&str) -> Option<Version>>(
    read: F,
    infos: Seq<(Seq<char>, Seq<char>)>,
    outcome: Result<Seq<(Seq<char>, Version)>, Seq<char>>,
) -> bool {
    match outcome {
        Ok(packages) => packages.len() == infos.len() && are_read(read, infos, packages),
        Err(text) => is_first_refused(read, infos, text),
    }
}

/// The packages before the first text that is refused.
spec fn read_before<F: Fn(&str) -> Option<Version>>(
    read: F,
    infos: Seq<(Seq<char>, Seq<char>)>,
    text: Seq<char>,
) -> Seq<(Seq<char>, Version)> {
    choose|packages: Seq<(Seq<char>, Version)>|
        {
            &&& #[trigger] are_read(read, infos, packages)
            &&& packages.len() < infos.len()
            &&& infos[packages.len() as int].1 == text
            &&& version_answer(read, text, None)
        }
}

/// A reader with one answer to each text comes to one outcome only.
proof fn outcome_is_unique<F: Fn(&str) -> Option<Version>>(
    read: F,
    infos: Seq<(Seq<char>, Seq<char>)>,
    one: Result<Seq<(Seq<char>, Version)>, Seq<char>>,
    other: Result<Seq<(Seq<char>, Version)>, Seq<char>>,
)
    requires
        is_single_valued(read),
        is_outcome(read, infos, one),
        is_outcome(read, infos, other),
    ensures
        one == other,
{
    let a = match one {
        Ok(packages) => packages,
        Err(text) => read_before(read, infos, text),
    };
    let b = match other {
        Ok(packages) => packages,
        Err(text) => read_before(read, infos, text),
    };
    if a.len() < b.len() {
        let at = a.len() as int;
        assert(b[at].0 == infos[at].0);
        answer_is_unique(read, infos[at].1, None, Some(b[at].1));
    } else if b.len() < a.len() {
        let at = b.len() as int;
        assert(a[at].0 == infos[at].0);
        answer_is_unique(read, infos[at].1, None, Some(a[at].1));
    }
    assert forall|i: int| 0 <= i < a.len() implies a[i] == b[i] by {
        assert(a[i].0 == infos[i].0 && b[i].0 == infos[i].0);
        answer_is_unique(read, infos[i].1, Some(a[i].1), Some(b[i].1));
    }
    assert(a =~= b);
}

/// What reading one version more comes to.
proof fn one_more_is_read<F: Fn(&str) -> Option<Version>>(
    read: F,
    infos: Seq<(Seq<char>, Seq<char>)>,
    info: (Seq<char>, Seq<char>),
    one: Result<Seq<(Seq<char>, Version)>, Seq<char>>,
    more: Result<Seq<(Seq<char>, Version)>, Seq<char>>,
)
    requires
        is_single_valued(read),
        is_outcome(read, infos, one),
        is_outcome(read, infos.push(info), more),
    ensures
        match (one, more) {
            (Err(text), _) => more == one,
            (Ok(packages), Ok(all)) => all.len() == packages.len() + 1 && packages
                == all.drop_last() && all.last().0 == info.0 && version_answer(
                read,
                info.1,
                Some(all.last().1),
            ),
            (Ok(_), Err(text)) => text == info.1 && version_answer(read, text, None),
        },
{
    let longer = infos.push(info);
    match (one, more) {
        (Ok(packages), Ok(all)) => {
            assert(all[infos.len() as int].0 == longer[infos.len() as int].0);
            let first = all.drop_last();
            assert forall|i: int| 0 <= i < first.len() implies (#[trigger] first[i]).0 == infos[i].0
                && version_answer(read, infos[i].1, Some(first[i].1)) by {
                assert(all[i].0 == longer[i].0);
            }
            outcome_is_unique(
                read,
                infos,
                one,
                Ok::<Seq<(Seq<char>, Version)>, Seq<char>>(first),
            );
        },
        (Ok(packages), Err(text)) => {
            let first = read_before(read, longer, text);
            if first.len() < infos.len() {
                assert(are_read(read, infos, first));
                outcome_is_unique(read, infos, one, more);
            }
        },
        (Err(text), _) => {
            assert(are_read(read, longer, read_before(read, infos, text)));
            outcome_is_unique(read, longer, one, more);
        },
    }
}

/// The packages that are found, or the text that is refused.
spec fn outcome_of(found: Result<Vec<(String, Version)>, String>) -> Result<
    Seq<(Seq<char>, Version)>,
    Seq<char>,
> {
    match found {
        Ok(packages) => Ok(packages.deep_view()),
        Err(text) => Err(text@),
    }
}

/// Folders are gone through in order, one by one. One folder more changes nothing where it
/// gives no name and version, or where a version was refused before it. Otherwise it adds,
/// at the end, a package of that name, with that version as `read_version` reads it; and where
/// `read_version` refuses it, its text is handed back. No folders hold nothing.
pub proof fn folders_are_gone_through_in_order<F: Fn(&str) -> Option<Version>>(
    folders: &Vec<String>,
    more: &Vec<String>,
    last: &str,
    read_version: F,
    split: Option<(String, String)>,
    found: Result<Vec<(String, Version)>, String>,
    all: Result<Vec<(String, Version)>, String>,
)
    requires
        call_ensures(find_installed::<F>, (folders, read_version), found),
        call_ensures(find_installed::<F>, (more, read_version), all),
        call_ensures(name_and_version, (last,), split),
        more@.len() == folders@.len() + 1,
        forall|i: int| 0 <= i < folders@.len() ==> (#[trigger] more@[i])@ == folders@[i]@,
        more@[folders@.len() as int]@ == last@,
        is_single_valued(read_version),
    ensures
        folders@.len() == 0 ==> (found matches Ok(packages) && packages@.len() == 0),
        match (found, split, all) {
            (Err(text), _, Err(other)) => text@ == other@,
            (Ok(packages), None, Ok(same)) => same.deep_view() == packages.deep_view(),
            (Ok(packages), Some(info), Ok(longer)) => exists|t: &str, version: Version|
                t@ == info.1@ && #[trigger] call_ensures(read_version, (t,), Some(version))
                    && is_longer_by(packages@, longer@, (info.0@, version)),
            (Ok(_), Some(info), Err(text)) => text@ == info.1@ && exists|t: &str|
                t@ == info.1@ && #[trigger] call_ensures(read_version, (t,), None::<Version>),
            _ => false,
        },
{
    let seen = folders.deep_view();
    assert forall|i: int| 0 <= i < more@.len() implies more.deep_view()[i] == seen.push(
        last@,
    )[i] by {
        assert(more.deep_view()[i] == more@[i]@);
    }
    assert(more.deep_view() =~= seen.push(last@));
    infos_of_more(seen, last@);
    match split {
        None => {
            outcome_is_unique(read_version, infos_of(seen), outcome_of(found), outcome_of(all));
        },
        Some(info) => {
            one_more_is_read(
                read_version,
                infos_of(seen),
                (info.0@, info.1@),
                outcome_of(found),
                outcome_of(all),
            );
            if let (Ok(packages), Ok(longer)) = (found, all) {
                let n = packages@.len() as int;
                let whole = longer.deep_view();
                let v = whole.last().1;
                let t = choose|t: &str|
                    t@ == info.1@ && #[trigger] call_ensures(read_version, (t,), Some(v));
                assert forall|i: int| 0 <= i < n implies (#[trigger] longer@[i]).0@
                    == packages@[i].0@ && longer@[i].1 == packages@[i].1 by {
                    assert(whole[i] == (longer@[i].0@, longer@[i].1));
                    assert(whole.drop_last()[i] == packages.deep_view()[i]);
                    assert(packages.deep_view()[i] == (packages@[i].0@, packages@[i].1));
                }
                assert(whole[n] == (longer@[n].0@, longer@[n].1));
                assert(call_ensures(read_version, (t,), Some(v)));
                assert(is_longer_by(packages@, longer@, (info.0@, v)));
            }
        },
    }
}

/// Whether the versions of `packs` are read as those of `locked`, and nothing else, and the
/// names agree.
pub open spec fn is_locked_as<F: Fn(&str) -> Option<Version>>(
    read: F,
    packs: Seq<LockPackage>,
    locked: Seq<(String, Version)>,
) -> bool {
    &&& locked.len() == packs.len()
    &&& forall|i: int|
        0 <= i < packs.len() ==> (#[trigger] locked[i]).0@ == packs[i].name@ && answers_only(
            read,
            packs[i].version@,
            Some(locked[i].1),
        )
}

/// Locked packages whose versions are read in one way are read in that way.
proof fn locked_packages_are_read<F: Fn(&str) -> Option<Version>>(
    read: F,
    packs: &Vec<LockPackage>,
    locked: &Vec<(String, Version)>,
    outcome: Result<Seq<(Seq<char>, Version)>, Seq<char>>,
)
    requires
        is_locked_as(read, packs@, locked@),
        is_outcome(read, lock_infos(packs.deep_view()), outcome),
    ensures
        outcome == Ok::<Seq<(Seq<char>, Version)>, Seq<char>>(locked.deep_view()),
{
    let infos = lock_infos(packs.deep_view());
    let all = locked.deep_view();
    assert forall|i: int| 0 <= i < infos.len() implies #[trigger] infos[i] == (
        packs@[i].name@,
        packs@[i].version@,
    ) && all[i] == (packs@[i].name@, locked@[i].1) && answers_only(
        read,
        infos[i].1,
        Some(locked@[i].1),
    ) by {
        assert(locked@[i].0@ == packs@[i].name@);
        assert(packs.deep_view()[i] == packs@[i].deep_view());
    }
    match outcome {
        Ok(packages) => {
            assert forall|i: int| 0 <= i < packages.len() implies packages[i] == all[i] by {
                assert(packages[i].0 == infos[i].0);
                assert(answers_only(read, infos[i].1, Some(locked@[i].1)));
            }
            assert(packages =~= all);
        },
        Err(text) => {
            let at = read_before(read, infos, text).len() as int;
            assert(infos[at].1 == text);
            assert(answers_only(read, infos[at].1, Some(locked@[at].1)));
        },
    }
}

/// To be in accordance with the lock, the locked packages that are not installed are
/// installed, and the installed packages that are not locked are uninstalled.
pub proof fn lock_sync_selects_the_difference<F: Fn(&str) -> Option<Version>>(
    packs: &Vec<LockPackage>,
    installed: &Vec<(String, Version)>,
    read_version: F,
    locked: &Vec<(String, Version)>,
    missing: Vec<(String, Version)>,
    surplus: Vec<(String, Version)>,
    sync: Result<LockSync, String>,
)
    requires
        call_ensures(
            sync_packages_with_lock::<F>,
            (packs, installed, read_version),
            sync,
        ),
        call_ensures(packages_not_in, (locked, installed), missing),
        call_ensures(packages_not_in, (installed, locked), surplus),
        is_locked_as(read_version, packs@, locked@),
    ensures
        sync matches Ok(sync) && sync.install.deep_view() == missing.deep_view()
            && sync.uninstall.deep_view() == surplus.deep_view(),
{
    let infos = lock_infos(packs.deep_view());
    match sync {
        Ok(sync) => {
            let read = choose|read: Seq<(Seq<char>, Version)>|
                {
                    &&& read.len() == infos.len()
                    &&& #[trigger] are_read(read_version, infos, read)
                    &&& sync.uninstall.deep_view() == installed.deep_view().filter(absent_from(read))
                    &&& sync.install.deep_view() == read.filter(absent_from(installed.deep_view()))
                };
            locked_packages_are_read(
                read_version,
                packs,
                locked,
                Ok::<Seq<(Seq<char>, Version)>, Seq<char>>(read),
            );
        },
        Err(text) => {
            locked_packages_are_read(
                read_version,
                packs,
                locked,
                Err::<Seq<(Seq<char>, Version)>, Seq<char>>(text@),
            );
        },
    }
}

/// Where a text is refused and those before it are not, it is the first that is refused.
proof fn refused_text_is_first<F: Fn(&str) -> Option<Version>>(
    read: F,
    packs: &Vec<LockPackage>,
    at: int,
)
    requires
        0 <= at < packs@.len(),
        answers_only(read, packs@[at].version@, None),
        forall|i: int, t: &str|
            0 <= i < at && t@ == (#[trigger] packs@[i]).version@ ==> !#[trigger] call_ensures(
                read,
                (t,),
                None::<Version>,
            ),
    ensures
        ({
            let infos = lock_infos(packs.deep_view());
            &&& forall|first: Seq<(Seq<char>, Version)>| #[trigger]
                are_read(read, infos, first) ==> first.len() <= at
            &&& forall|text: Seq<char>| #[trigger]
                is_first_refused(read, infos, text) ==> text == packs@[at].version@
        }),
{
    let infos = lock_infos(packs.deep_view());
    assert forall|i: int| 0 <= i < infos.len() implies (#[trigger] infos[i]).1
        == packs@[i].version@ by {
        assert(packs.deep_view()[i] == packs@[i].deep_view());
    }
    assert forall|first: Seq<(Seq<char>, Version)>| #[trigger]
        are_read(read, infos, first) implies first.len() <= at by {
        if first.len() > at {
            assert(first[at].0 == infos[at].0);
            let t = choose|t: &str|
                t@ == infos[at].1 && #[trigger] call_ensures(read, (t,), Some(first[at].1));
            assert(Some(first[at].1) == None::<Version>);
        }
    }
    assert forall|text: Seq<char>| #[trigger] is_first_refused(read, infos, text) implies text
        == packs@[at].version@ by {
        let first = read_before(read, infos, text);
        let k = first.len() as int;
        if k < at {
            let t = choose|t: &str|
                t@ == infos[k].1 && #[trigger] call_ensures(read, (t,), None::<Version>);
            assert(packs@[k].version@ == infos[k].1);
        }
    }
}

/// The first locked version that is refused is handed back.
pub proof fn unreadable_lock_is_refused<F: Fn(&str) -> Option<Version>>(
    packs: &Vec<LockPackage>,
    installed: &Vec<(String, Version)>,
    read_version: F,
    at: int,
    sync: Result<LockSync, String>,
)
    requires
        call_ensures(
            sync_packages_with_lock::<F>,
            (packs, installed, read_version),
            sync,
        ),
        0 <= at < packs@.len(),
        answers_only(read_version, packs@[at].version@, None),
        forall|i: int, t: &str|
            0 <= i < at && t@ == (#[trigger] packs@[i]).version@ ==> !#[trigger] call_ensures(
                read_version,
                (t,),
                None::<Version>,
            ),
    ensures
        sync matches Err(text) && text@ == packs@[at].version@,
{
    let infos = lock_infos(packs.deep_view());
    assert forall|i: int| 0 <= i < infos.len() implies (#[trigger] infos[i]).1
        == packs@[i].version@ by {
        assert(packs.deep_view()[i] == packs@[i].deep_view());
    }
    refused_text_is_first(read_version, packs, at);
    match sync {
        Ok(sync) => {
            let read = choose|read: Seq<(Seq<char>, Version)>|
                read.len() == infos.len() && #[trigger] are_read(read_version, infos, read);
            assert(read[at].0 == infos[at].0);
        },
        Err(text) => {},
    }
}

/// A new lock lists the packages that were resolved, in order: each by its name, its version
/// as it is written, and where the package index describes that version of it.
pub proof fn lock_lists_what_was_resolved<F: Fn(&Version) -> String>(
    resolved: &Vec<(String, Version)>,
    show_version: F,
    lock: Lock,
    i: int,
)
    requires
        call_ensures(new_lock::<F>, (resolved, show_version), lock),
    ensures
        lock.metadata is None,
        lock.package is Some,
        lock.package->0@.len() == resolved@.len(),
        0 <= i < resolved@.len() ==> {
            let pack = lock.package->0@[i];
            &&& pack.name@ == resolved@[i].0@
            &&& exists|shown: String| #[trigger]
                call_ensures(show_version, (&resolved@[i].1,), shown) && pack.version@ == shown@
            &&& pack.source is Some
            &&& pack.source->0@ == "pypi+https://pypi.org/pypi/"@ + pack.name@ + "/"@
                + pack.version@ + "/json"@
            &&& pack.dependencies is None
        },
{
    let all = resolved.deep_view();
    let texts = choose|texts: Seq<Seq<char>>|
        #[trigger] are_version_texts(show_version, all, texts) && lock.deep_view() == lock_of(
            all,
            texts,
        );
    assert(lock.deep_view().package == lock_of(all, texts).package);
    let packs = lock.package->0;
    assert(packs.deep_view() == lock_of(all, texts).package->0);
    if 0 <= i < resolved@.len() {
        assert(packs.deep_view()[i] == packs@[i].deep_view());
        assert(all[i] == (resolved@[i].0@, resolved@[i].1));
        assert(packs@[i].deep_view() == lock_entry(all[i].0, texts[i]));
        assert(is_version_text(show_version, all[i].1, texts[i]));
        assert(packs@[i].source.deep_view() is Some);
    }
}

/// A lock that was written is read back: where nothing is installed, what the lock of some
/// packages calls for is to install just these packages, with their versions, in order, and
/// to uninstall nothing. Each version that is written is read as that version.
pub proof fn locked_packages_are_installed_again<
    S: Fn(&Version) -> String,
    F: Fn(&str) -> Option<Version>,
>(
    resolved: &Vec<(String, Version)>,
    show_version: S,
    read_version: F,
    lock: Lock,
    packs: &Vec<LockPackage>,
    installed: &Vec<(String, Version)>,
    sync: Result<LockSync, String>,
)
    requires
        call_ensures(new_lock::<S>, (resolved, show_version), lock),
        lock.package == Some(*packs),
        call_ensures(
            sync_packages_with_lock::<F>,
            (packs, installed, read_version),
            sync,
        ),
        installed@.len() == 0,
        forall|v: Version, shown: String| #[trigger]
            call_ensures(show_version, (&v,), shown) ==> answers_only(
                read_version,
                shown@,
                Some(v),
            ),
    ensures
        sync matches Ok(sync) && sync.uninstall@.len() == 0 && sync.install@.len()
            == resolved@.len() && forall|i: int|
            0 <= i < resolved@.len() ==> (#[trigger] sync.install@[i]).0@ == resolved@[i].0@
                && sync.install@[i].1 == resolved@[i].1,
{
    let all = resolved.deep_view();
    let infos = lock_infos(packs.deep_view());
    lock_lists_what_was_resolved(resolved, show_version, lock, 0);
    assert forall|i: int| 0 <= i < packs@.len() implies (#[trigger] resolved@[i]).0@
        == packs@[i].name@ && answers_only(
        read_version,
        packs@[i].version@,
        Some(resolved@[i].1),
    ) by {
        lock_lists_what_was_resolved(resolved, show_version, lock, i);
    }
    assert(is_locked_as(read_version, packs@, resolved@));
    match sync {
        Ok(sync) => {
            let read = choose|read: Seq<(Seq<char>, Version)>|
                {
                    &&& read.len() == infos.len()
                    &&& #[trigger] are_read(read_version, infos, read)
                    &&& sync.uninstall.deep_view() == installed.deep_view().filter(absent_from(read))
                    &&& sync.install.deep_view() == read.filter(absent_from(installed.deep_view()))
                };
            locked_packages_are_read(
                read_version,
                packs,
                resolved,
                Ok::<Seq<(Seq<char>, Version)>, Seq<char>>(read),
            );
            installed.deep_view().lemma_filter_len(absent_from(read));
            assert(sync.uninstall.deep_view().len() == 0);
            nothing_is_left_out(all, installed.deep_view());
            assert forall|i: int| 0 <= i < resolved@.len() implies (
            #[trigger] sync.install@[i]).0@ == resolved@[i].0@ && sync.install@[i].1
                == resolved@[i].1 by {
                assert(sync.install.deep_view()[i] == (sync.install@[i].0@, sync.install@[i].1));
                assert(all[i] == (resolved@[i].0@, resolved@[i].1));
            }
        },
        Err(text) => {
            locked_packages_are_read(
                read_version,
                packs,
                resolved,
                Err::<Seq<(Seq<char>, Version)>, Seq<char>>(text@),
            );
        },
    }
}

/// All packages are absent from an empty list.
proof fn nothing_is_left_out(
    packages: Seq<(Seq<char>, Version)>,
    none: Seq<(Seq<char>, Version)>,
)
    requires
        none.len() == 0,
    ensures
        packages.filter(absent_from(none)) == packages,
    decreases packages.len(),
{
    reveal(Seq::filter);
    if packages.len() > 0 {
        nothing_is_left_out(packages.drop_last(), none);
        assert(absent_from(none)(packages.last()));
        assert(packages =~= packages.drop_last().push(packages.last()));
    } else {
        assert(packages.filter(absent_from(none)) =~= packages);
    }
}

/// Locked packages of other names leave constraints as they are.
proof fn other_names_lock_nothing<F: Fn(&Constraint, &Version) -> bool>(
    allows: F,
    name: Seq<char>,
    packages: Seq<(Seq<char>, Version)>,
    before: Seq<Constraint>,
    after: Seq<Constraint>,
)
    requires
        locks(allows, name, packages, before, after),
        forall|i: int| 0 <= i < packages.len() ==> (#[trigger] packages[i]).0 != name,
    ensures
        after == before,
    decreases packages.len(),
{
    if packages.len() > 0 {
        let between = choose|between: Seq<Constraint>|
            locks(allows, name, packages.drop_last(), before, between) && #[trigger] locks_once(
                allows,
                name,
                packages.last(),
                between,
                after,
            );
        assert(packages[packages.len() - 1].0 != name);
        other_names_lock_nothing(allows, name, packages.drop_last(), before, between);
    }
}

/// Among locked packages of other names, the one of the right name decides.
proof fn one_name_locks_once<F: Fn(&Constraint, &Version) -> bool>(
    allows: F,
    name: Seq<char>,
    packages: Seq<(Seq<char>, Version)>,
    at: int,
    before: Seq<Constraint>,
    after: Seq<Constraint>,
)
    requires
        locks(allows, name, packages, before, after),
        0 <= at < packages.len(),
        packages[at].0 == name,
        forall|i: int|
            0 <= i < packages.len() && i != at ==> (#[trigger] packages[i]).0 != name,
    ensures
        locks_once(allows, name, packages[at], before, after),
    decreases packages.len(),
{
    let between = choose|between: Seq<Constraint>|
        locks(allows, name, packages.drop_last(), before, between) && #[trigger] locks_once(
            allows,
            name,
            packages.last(),
            between,
            after,
        );
    if at == packages.len() - 1 {
        other_names_lock_nothing(allows, name, packages.drop_last(), before, between);
    } else {
        assert(packages[packages.len() - 1].0 != name);
        one_name_locks_once(allows, name, packages.drop_last(), at, before, between);
    }
}

/// Whether `allows` lets `version` past each of `constraints`, and does nothing else.
pub open spec fn always_allows<F: Fn(&Constraint, &Version) -> bool>(
    allows: F,
    constraints: Seq<Constraint>,
    version: Version,
) -> bool {
    forall|i: int, answer: bool|
        0 <= i < constraints.len() && #[trigger] call_ensures(
            allows,
            (&constraints[i], &version),
            answer,
        ) ==> answer
}

/// What the lock makes of the requirements, read in one way.
proof fn requirements_are_locked<
    F: Fn(&str) -> Option<Version>,
    G: Fn(&Constraint, &Version) -> bool,
>(
    dependencies: &Vec<Req>,
    lock: &Lock,
    added: Vec<Req>,
    read_version: F,
    is_compatible: G,
    locked: &Vec<(String, Version)>,
    reqs: Result<Vec<Req>, String>,
)
    requires
        call_ensures(
            requirements_to_install::<F, G>,
            (dependencies, lock, added, read_version, is_compatible),
            reqs,
        ),
        lock.package is Some,
        is_locked_as(read_version, lock.package->0@, locked@),
    ensures
        reqs matches Ok(all) && forall|d: int|
            0 <= d < dependencies@.len() ==> (#[trigger] all@[d]).name@ == dependencies@[d].name@
                && locks(
                is_compatible,
                dependencies@[d].name@,
                locked.deep_view(),
                dependencies@[d].constraints@,
                all@[d].constraints@,
            ),
{
    let packs = lock.package->0;
    let infos = lock_infos(packs.deep_view());
    let n = dependencies@.len() as int;
    match reqs {
        Ok(all) => {
            if n > 0 {
                let read = choose|read: Seq<(Seq<char>, Version)>|
                    {
                        &&& read.len() == packs@.len()
                        &&& #[trigger] are_read(read_version, infos, read)
                        &&& are_locked(is_compatible, read, dependencies@, all@.take(n))
                    };
                locked_packages_are_read(
                    read_version,
                    &packs,
                    locked,
                    Ok::<Seq<(Seq<char>, Version)>, Seq<char>>(read),
                );
                assert forall|d: int| 0 <= d < n implies (#[trigger] all@[d]).name@
                    == dependencies@[d].name@ && locks(
                    is_compatible,
                    dependencies@[d].name@,
                    locked.deep_view(),
                    dependencies@[d].constraints@,
                    all@[d].constraints@,
                ) by {
                    assert(all@.take(n)[d] == all@[d]);
                }
            }
        },
        Err(text) => {
            locked_packages_are_read(
                read_version,
                &packs,
                locked,
                Err::<Seq<(Seq<char>, Version)>, Seq<char>>(text@),
            );
        },
    }
}

/// A requirement whose package is locked once, at a version that satisfies all its
/// constraints, is fixed to that very version and to nothing else. One whose package is
/// locked once, at a version that a constraint stops, stays as it is.
pub proof fn requirement_is_fixed_to_the_locked_version<
    F: Fn(&str) -> Option<Version>,
    G: Fn(&Constraint, &Version) -> bool,
>(
    dependencies: &Vec<Req>,
    lock: &Lock,
    added: Vec<Req>,
    read_version: F,
    is_compatible: G,
    locked: &Vec<(String, Version)>,
    d: int,
    at: int,
    reqs: Result<Vec<Req>, String>,
)
    requires
        call_ensures(
            requirements_to_install::<F, G>,
            (dependencies, lock, added, read_version, is_compatible),
            reqs,
        ),
        lock.package is Some,
        is_locked_as(read_version, lock.package->0@, locked@),
        0 <= d < dependencies@.len(),
        0 <= at < locked@.len(),
        locked@[at].0@ == dependencies@[d].name@,
        forall|i: int|
            0 <= i < locked@.len() && i != at ==> (#[trigger] locked@[i]).0@
                != dependencies@[d].name@,
    ensures
        reqs is Ok,
        reqs->Ok_0@[d].name@ == dependencies@[d].name@,
        always_allows(is_compatible, dependencies@[d].constraints@, locked@[at].1) ==> reqs->Ok_0@[d].constraints@
            == seq![Constraint::Exact(locked@[at].1)],
        (exists|c: int|
            0 <= c < dependencies@[d].constraints@.len() && !call_ensures(
                is_compatible,
                (&#[trigger] dependencies@[d].constraints@[c], &locked@[at].1),
                true,
            )) ==> reqs->Ok_0@[d].constraints@ == dependencies@[d].constraints@,
{
    requirements_are_locked(
        dependencies,
        lock,
        added,
        read_version,
        is_compatible,
        locked,
        reqs,
    );
    let all = locked.deep_view();
    let name = dependencies@[d].name@;
    assert(forall|i: int| 0 <= i < all.len() ==> #[trigger] all[i] == (locked@[i].0@, locked@[i].1));
    assert(reqs->Ok_0@[d].name@ == name);
    one_name_locks_once(
        is_compatible,
        name,
        all,
        at,
        dependencies@[d].constraints@,
        reqs->Ok_0@[d].constraints@,
    );
    assert(all[at] == (locked@[at].0@, locked@[at].1));
}

/// A requirement whose package is not locked stays as it is; and so do all requirements where
/// there is no lock.
pub proof fn unlocked_requirement_stays<
    F: Fn(&str) -> Option<Version>,
    G: Fn(&Constraint, &Version) -> bool,
>(
    dependencies: &Vec<Req>,
    lock: &Lock,
    added: Vec<Req>,
    read_version: F,
    is_compatible: G,
    d: int,
    reqs: Vec<Req>,
)
    requires
        call_ensures(
            requirements_to_install::<F, G>,
            (dependencies, lock, added, read_version, is_compatible),
            Ok(reqs),
        ),
        0 <= d < dependencies@.len(),
        lock.package matches Some(packs) ==> forall|i: int|
            0 <= i < packs@.len() ==> (#[trigger] packs@[i]).name@ != dependencies@[d].name@,
    ensures
        reqs@[d].name@ == dependencies@[d].name@,
        reqs@[d].constraints@ == dependencies@[d].constraints@,
{
    let n = dependencies@.len() as int;
    let name = dependencies@[d].name@;
    assert(reqs@.take(n)[d] == reqs@[d]);
    match lock.package {
        Some(packs) => {
            let infos = lock_infos(packs.deep_view());
            let read = choose|read: Seq<(Seq<char>, Version)>|
                {
                    &&& read.len() == packs@.len()
                    &&& #[trigger] are_read(read_version, infos, read)
                    &&& are_locked(is_compatible, read, dependencies@, reqs@.take(n))
                };
            assert forall|i: int| 0 <= i < read.len() implies (#[trigger] read[i]).0 != name by {
                assert(packs.deep_view()[i] == packs@[i].deep_view());
                assert(read[i].0 == infos[i].0);
                assert(packs@[i].name@ != name);
            }
            other_names_lock_nothing(
                is_compatible,
                name,
                read,
                dependencies@[d].constraints@,
                reqs@[d].constraints@,
            );
        },
        None => {},
    }
}

/// The requirements of the project come first, in order and under their names; those that are
/// added come then, in order, just as they are.
pub proof fn added_requirements_come_last<
    F: Fn(&str) -> Option<Version>,
    G: Fn(&Constraint, &Version) -> bool,
>(
    dependencies: &Vec<Req>,
    lock: &Lock,
    added: Vec<Req>,
    read_version: F,
    is_compatible: G,
    reqs: Vec<Req>,
)
    requires
        call_ensures(
            requirements_to_install::<F, G>,
            (dependencies, lock, added, read_version, is_compatible),
            Ok(reqs),
        ),
    ensures
        reqs@.len() == dependencies@.len() + added@.len(),
        forall|i: int|
            0 <= i < dependencies@.len() ==> (#[trigger] reqs@[i]).name@ == dependencies@[i].name@,
        forall|i: int|
            0 <= i < added@.len() ==> reqs@[dependencies@.len() + i] == #[trigger] added@[i],
{
    let n = dependencies@.len() as int;
    assert forall|i: int| 0 <= i < n implies (#[trigger] reqs@[i]).name@
        == dependencies@[i].name@ by {
        assert(reqs@.take(n)[i] == reqs@[i]);
    }
    assert forall|i: int| 0 <= i < added@.len() implies reqs@[n + i] == #[trigger] added@[i] by {
        assert(reqs@.skip(n)[i] == reqs@[n + i]);
    }
}

/// Whether `allows` has one answer at most to each question.
pub open spec fn decides<F: Fn(&Constraint, &Version) -> bool>(allows: F) -> bool {
    forall|c: &Constraint, v: &Version|
        !(#[trigger] call_ensures(allows, (c, v), true) && call_ensures(allows, (c, v), false))
}

/// Where `allows` decides, locked packages make one thing of constraints.
proof fn locking_is_unique<F: Fn(&Constraint, &Version) -> bool>(
    allows: F,
    name: Seq<char>,
    packages: Seq<(Seq<char>, Version)>,
    before: Seq<Constraint>,
    one: Seq<Constraint>,
    other: Seq<Constraint>,
)
    requires
        decides(allows),
        locks(allows, name, packages, before, one),
        locks(allows, name, packages, before, other),
    ensures
        one == other,
    decreases packages.len(),
{
    if packages.len() > 0 {
        let a = choose|between: Seq<Constraint>|
            locks(allows, name, packages.drop_last(), before, between) && #[trigger] locks_once(
                allows,
                name,
                packages.last(),
                between,
                one,
            );
        let b = choose|between: Seq<Constraint>|
            locks(allows, name, packages.drop_last(), before, between) && #[trigger] locks_once(
                allows,
                name,
                packages.last(),
                between,
                other,
            );
        locking_is_unique(allows, name, packages.drop_last(), before, a, b);
    }
}

/// Locked packages can be applied in two parts.
proof fn locking_goes_on<F: Fn(&Constraint, &Version) -> bool>(
    allows: F,
    name: Seq<char>,
    first: Seq<(Seq<char>, Version)>,
    rest: Seq<(Seq<char>, Version)>,
    before: Seq<Constraint>,
    between: Seq<Constraint>,
    after: Seq<Constraint>,
)
    requires
        locks(allows, name, first, before, between),
        locks(allows, name, rest, between, after),
    ensures
        locks(allows, name, first + rest, before, after),
    decreases rest.len(),
{
    if rest.len() == 0 {
        assert(first + rest =~= first);
    } else {
        let mid = choose|mid: Seq<Constraint>|
            locks(allows, name, rest.drop_last(), between, mid) && #[trigger] locks_once(
                allows,
                name,
                rest.last(),
                mid,
                after,
            );
        locking_goes_on(allows, name, first, rest.drop_last(), before, between, mid);
        assert((first + rest).drop_last() =~= first + rest.drop_last());
        assert((first + rest).last() == rest.last());
    }
}

/// Locked packages take effect one after the other: a lock that is written in two parts makes
/// of a requirement what its second part makes of what its first part made of it.
pub proof fn locks_take_effect_in_order<
    F: Fn(&str) -> Option<Version>,
    G: Fn(&Constraint, &Version) -> bool,
>(
    dependencies: &Vec<Req>,
    parts: (&Lock, &Lock, &Lock),
    locked: (&Vec<(String, Version)>, &Vec<(String, Version)>, &Vec<(String, Version)>),
    added: Vec<Req>,
    read_version: F,
    is_compatible: G,
    between: Vec<Req>,
    after: Vec<Req>,
    at_once: Vec<Req>,
    d: int,
)
    requires
        call_ensures(
            requirements_to_install::<F, G>,
            (dependencies, parts.0, added, read_version, is_compatible),
            Ok(between),
        ),
        call_ensures(
            requirements_to_install::<F, G>,
            (&between, parts.1, added, read_version, is_compatible),
            Ok(after),
        ),
        call_ensures(
            requirements_to_install::<F, G>,
            (dependencies, parts.2, added, read_version, is_compatible),
            Ok(at_once),
        ),
        parts.0.package is Some && parts.1.package is Some && parts.2.package is Some,
        is_locked_as(read_version, parts.0.package->0@, locked.0@),
        is_locked_as(read_version, parts.1.package->0@, locked.1@),
        is_locked_as(read_version, parts.2.package->0@, locked.2@),
        locked.2.deep_view() == locked.0.deep_view() + locked.1.deep_view(),
        decides(is_compatible),
        0 <= d < dependencies@.len(),
    ensures
        at_once@[d].constraints@ == after@[d].constraints@,
{
    requirements_are_locked(
        dependencies,
        parts.0,
        added,
        read_version,
        is_compatible,
        locked.0,
        Ok(between),
    );
    requirements_are_locked(
        &between,
        parts.1,
        added,
        read_version,
        is_compatible,
        locked.1,
        Ok(after),
    );
    requirements_are_locked(
        dependencies,
        parts.2,
        added,
        read_version,
        is_compatible,
        locked.2,
        Ok(at_once),
    );
    let name = dependencies@[d].name@;
    assert(between@[d].name@ == name);
    assert(after@[d].name@ == name);
    assert(at_once@[d].name@ == name);
    locking_goes_on(
        is_compatible,
        name,
        locked.0.deep_view(),
        locked.1.deep_view(),
        dependencies@[d].constraints@,
        between@[d].constraints@,
        after@[d].constraints@,
    );
    locking_is_unique(
        is_compatible,
        name,
        locked.2.deep_view(),
        dependencies@[d].constraints@,
        at_once@[d].constraints@,
        after@[d].constraints@,
    );
}

/// The first locked version that is refused is handed back where there is a requirement to
/// compare it with; where there is none, nothing is refused.
pub proof fn unreadable_lock_stops_requirements<
    F: Fn(&str) -> Option<Version>,
    G: Fn(&Constraint, &Version) -> bool,
>(
    dependencies: &Vec<Req>,
    lock: &Lock,
    added: Vec<Req>,
    read_version: F,
    is_compatible: G,
    at: int,
    reqs: Result<Vec<Req>, String>,
)
    requires
        call_ensures(
            requirements_to_install::<F, G>,
            (dependencies, lock, added, read_version, is_compatible),
            reqs,
        ),
        lock.package is Some,
        0 <= at < lock.package->0@.len(),
        answers_only(read_version, lock.package->0@[at].version@, None),
        forall|i: int, t: &str|
            0 <= i < at && t@ == (#[trigger] lock.package->0@[i]).version@ ==> !#[trigger] call_ensures(
                read_version,
                (t,),
                None::<Version>,
            ),
    ensures
        dependencies@.len() > 0 ==> (reqs matches Err(text) && text@
            == lock.package->0@[at].version@),
        dependencies@.len() == 0 ==> reqs is Ok,
{
    let packs = lock.package->0;
    refused_text_is_first(read_version, &packs, at);
    if let Ok(all) = reqs {
        if dependencies@.len() > 0 {
            let infos = lock_infos(packs.deep_view());
            let read = choose|read: Seq<(Seq<char>, Version)>|
                read.len() == packs@.len() && #[trigger] are_read(read_version, infos, read);
            assert(read.len() > at);
        }
    }
}

/// Where there is no lock, and where each locked version is read in one way, nothing is
/// refused.
pub proof fn readable_locks_are_accepted<
    F: Fn(&str) -> Option<Version>,
    G: Fn(&Constraint, &Version) -> bool,
>(
    dependencies: &Vec<Req>,
    lock: &Lock,
    added: Vec<Req>,
    read_version: F,
    is_compatible: G,
    locked: &Vec<(String, Version)>,
    reqs: Result<Vec<Req>, String>,
)
    requires
        call_ensures(
            requirements_to_install::<F, G>,
            (dependencies, lock, added, read_version, is_compatible),
            reqs,
        ),
        lock.package matches Some(packs) ==> is_locked_as(read_version, packs@, locked@),
    ensures
        reqs is Ok,
{
    if lock.package is Some {
        requirements_are_locked(
            dependencies,
            lock,
            added,
            read_version,
            is_compatible,
            locked,
            reqs,
        );
    }
}

} // verus!
