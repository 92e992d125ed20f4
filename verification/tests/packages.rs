use pypackage::packages::{
    contains_package, find_installed, new_lock, packages_not_in, requirements_to_install,
    sync_packages_with_lock,
};
use pypackage::version::{Constraint, Lock, LockPackage, Req, Version};

fn read(text: &str) -> Option<Version> {
    let numbers: Option<Vec<u32>> = text.split('.').map(|n| n.parse().ok()).collect();
    match numbers?.as_slice() {
        [major, minor, patch] => Some(Version::new(*major, *minor, *patch)),
        _ => None,
    }
}

fn show(v: &Version) -> String {
    format!("{}.{}.{}", v.major, v.minor, v.patch)
}

fn package(name: &str, major: u32) -> (String, Version) {
    (name.to_string(), Version::new(major, 0, 0))
}

fn locked(name: &str, version: &str) -> LockPackage {
    LockPackage {
        name: name.to_string(),
        version: version.to_string(),
        source: None,
        dependencies: None,
    }
}

#[test]
fn names_match_whatever_their_case() {
    let all = vec![package("NumPy", 1), package("\u{c4}pfel", 2)];
    assert!(contains_package(&all, "numpy", Version::new(1, 0, 0)));
    assert!(contains_package(&all, "NUMPY", Version::new(1, 0, 0)));
    assert!(contains_package(&all, "\u{e4}PFEL", Version::new(2, 0, 0)));
    assert!(!contains_package(&all, "numpy", Version::new(2, 0, 0)));
    assert!(!contains_package(&all, "num_py", Version::new(1, 0, 0)));
    assert!(!contains_package(&Vec::new(), "numpy", Version::new(1, 0, 0)));
}

#[test]
fn packages_are_left_out_in_order() {
    let all = vec![package("a", 1), package("b", 1), package("c", 1)];
    let others = vec![package("B", 1), package("c", 2)];
    assert_eq!(packages_not_in(&all, &others), vec![package("a", 1), package("c", 1)]);
}

#[test]
fn installed_packages_are_found() {
    let folders: Vec<String> =
        ["numpy", "numpy-1.16.4.dist-info", "bin", "Old-0.1.2.egg-info", "x-bad.txt"]
            .iter()
            .map(|f| f.to_string())
            .collect();
    assert_eq!(
        find_installed(&folders, read).unwrap(),
        vec![
            ("numpy".to_string(), Version::new(1, 16, 4)),
            ("Old".to_string(), Version::new(0, 1, 2)),
        ]
    );
}

#[test]
fn an_unreadable_installed_version_is_an_error() {
    let folders: Vec<String> = ["a-1.0.0.dist-info", "b-x.dist-info", "c-y.dist-info"]
        .iter()
        .map(|f| f.to_string())
        .collect();
    assert_eq!(find_installed(&folders, read), Err("x".to_string()));
}

#[test]
fn the_lock_says_what_goes_and_what_comes() {
    let lock = vec![locked("A", "1.0.0"), locked("b", "2.0.0"), locked("twine", "1.0.0")];
    let installed = vec![package("a", 1), package("b", 1), package("Twine", 1), package("z", 1)];
    let sync = sync_packages_with_lock(&lock, &installed, read).unwrap();
    assert_eq!(sync.uninstall, vec![package("b", 1), package("z", 1)]);
    assert_eq!(sync.install, vec![package("b", 2)]);
}

#[test]
fn build_tools_are_packages_like_any_other() {
    let tools = vec![package("SetupTools", 1), package("twine", 1)];
    let lock = vec![locked("setuptools", "1.0.0"), locked("Twine", "1.0.0")];
    let kept = sync_packages_with_lock(&lock, &tools, read).unwrap();
    assert!(kept.uninstall.is_empty());
    assert!(kept.install.is_empty());
    let gone = sync_packages_with_lock(&Vec::new(), &tools, read).unwrap();
    assert_eq!(gone.uninstall, tools);
    assert!(gone.install.is_empty());
}

#[test]
fn an_exchange_by_the_lock_leaves_what_is_locked() {
    let lock = vec![locked("a", "1.0.0"), locked("b", "2.0.0")];
    let installed = vec![package("A", 1), package("b", 1), package("c", 1)];
    let sync = sync_packages_with_lock(&lock, &installed, read).unwrap();
    let mut after = packages_not_in(&installed, &sync.uninstall);
    after.extend(sync.install);
    assert_eq!(after, vec![package("A", 1), package("b", 2)]);
}

#[test]
fn an_unreadable_locked_version_is_an_error() {
    let lock = vec![locked("a", "1.0.0"), locked("b", "new")];
    let error = sync_packages_with_lock(&lock, &Vec::new(), read).unwrap_err();
    assert_eq!(error, "new");
}

#[test]
fn a_lock_lists_the_packages() {
    let lock = new_lock(&vec![("numpy".to_string(), Version::new(1, 16, 4))], show);
    assert!(lock.metadata.is_none());
    let packages = lock.package.unwrap();
    assert_eq!(packages.len(), 1);
    assert_eq!(packages[0].name, "numpy");
    assert_eq!(packages[0].version, "1.16.4");
    assert_eq!(
        packages[0].source,
        Some("pypi+https://pypi.org/pypi/numpy/1.16.4/json".to_string())
    );
    assert!(packages[0].dependencies.is_none());
}

#[test]
fn a_lock_is_read_back() {
    let resolved = vec![package("a", 1), package("b", 2)];
    let lock = new_lock(&resolved, show);
    let sync = sync_packages_with_lock(&lock.package.unwrap(), &Vec::new(), read).unwrap();
    assert_eq!(sync.install, resolved);
}

fn req(name: &str, constraints: Vec<Constraint>) -> Req {
    Req { name: name.to_string(), constraints }
}

fn shown(reqs: &[Req]) -> Vec<String> {
    reqs.iter()
        .map(|r| {
            let all: Vec<String> = r
                .constraints
                .iter()
                .map(|c| match c {
                    Constraint::Exact(v) => format!("=={}", show(v)),
                    Constraint::Written(t) => t.clone(),
                })
                .collect();
            format!("{} {}", r.name, all.join(","))
        })
        .collect()
}

fn allows(c: &Constraint, v: &Version) -> bool {
    match c {
        Constraint::Exact(w) => v == w,
        Constraint::Written(t) => t == "*" || (t == ">1" && v.major > 1),
    }
}

fn written(text: &str) -> Constraint {
    Constraint::Written(text.to_string())
}

#[test]
fn requirements_are_fixed_to_the_lock() {
    let deps = vec![
        req("a", vec![written("*"), written(">1")]),
        req("b", vec![written(">1")]),
        req("c", vec![written("*")]),
        req("d", Vec::new()),
        req("e", vec![written("*")]),
    ];
    let lock = Lock {
        package: Some(vec![
            locked("a", "2.0.0"),
            locked("b", "1.0.0"),
            locked("C", "1.0.0"),
            locked("d", "3.0.0"),
            locked("e", "1.0.0"),
            locked("e", "2.0.0"),
        ]),
        metadata: None,
    };
    let added = vec![req("a", vec![written("*")])];
    let reqs = requirements_to_install(&deps, &lock, added, read, allows).unwrap();
    assert_eq!(
        shown(&reqs),
        vec!["a ==2.0.0", "b >1", "c *", "d ==3.0.0", "e ==1.0.0", "a *"]
    );
}

#[test]
fn without_a_lock_requirements_stay() {
    let deps = vec![req("a", vec![written(">1")])];
    let lock = Lock { package: None, metadata: None };
    let added = vec![req("b", Vec::new())];
    let reqs = requirements_to_install(&deps, &lock, added, read, allows).unwrap();
    assert_eq!(shown(&reqs), vec!["a >1", "b "]);
}

#[test]
fn an_unreadable_lock_matters_only_to_requirements() {
    let lock = Lock { package: Some(vec![locked("x", "bad")]), metadata: None };
    let none = requirements_to_install(&Vec::new(), &lock, vec![req("b", Vec::new())], read, allows);
    assert_eq!(shown(&none.unwrap()), vec!["b "]);
    let some = requirements_to_install(&vec![req("a", Vec::new())], &lock, Vec::new(), read, allows);
    assert_eq!(some.unwrap_err(), "bad");
}
