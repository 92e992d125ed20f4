use pypackage::sync::{Stage, SyncAction, SyncDeps, SyncError, SyncEvent};
use pypackage::version::{Req, Version};
use pypackage::wheel::{Candidate, Os, PackageType, PythonRequirement, Release, SelectError};

const PYTHON: Version = Version { major: 3, minor: 7, patch: 0 };

fn package(name: &str, major: u32) -> (String, Version) {
    (name.to_string(), Version::new(major, 0, 0))
}

fn wheel(name: &str) -> Candidate {
    Candidate {
        release: Release {
            packagetype: "bdist_wheel".to_string(),
            filename: format!("{}-1-py3-none-any.whl", name),
            url: format!("https://files/{}", name),
            md5_digest: "d41d".to_string(),
            python_version: "py3".to_string(),
            requires_python: None,
        },
        requirement: PythonRequirement::Absent,
        built_for: None,
    }
}

fn begin(installed: Vec<(String, Version)>) -> SyncDeps {
    let reqs = vec![Req { name: "a".to_string(), constraints: Vec::new() }];
    let (sync, root) = SyncDeps::start(&reqs, installed, PYTHON, Os::Linux);
    assert_eq!(root.name, "root");
    assert_eq!(root.version, Version::new(0, 0, 0));
    assert_eq!(root.reqs.len(), 1);
    assert_eq!(root.reqs[0].name, "a");
    assert!(root.dependencies.is_empty() && root.constraints_for_this.is_empty());
    assert_eq!(sync.stage, Stage::Resolving);
    sync
}

#[test]
fn a_synchronisation_runs_through() {
    let mut sync = begin(vec![package("A", 1), package("old", 1), package("c", 1)]);
    let resolved = vec![package("a", 1), package("b", 2), package("c", 2)];
    let mut log = Vec::new();
    let mut event = SyncEvent::Resolved(resolved.clone());
    loop {
        event = match sync.step(event) {
            SyncAction::Fetch(name, version) => {
                log.push(format!("fetch {} {}", name, version.major));
                SyncEvent::Releases(vec![wheel(&name)])
            }
            SyncAction::Install(name, version, release, package_type) => {
                assert_eq!(package_type, PackageType::Wheel);
                log.push(format!("install {} {} {}", name, version.major, release.url));
                SyncEvent::Succeeded
            }
            SyncAction::Remove(name, version) => {
                log.push(format!("remove {} {}", name, version.major));
                SyncEvent::Succeeded
            }
            SyncAction::WriteLock(packages) => {
                assert_eq!(packages, resolved);
                log.push("lock".to_string());
                SyncEvent::Succeeded
            }
            SyncAction::Finish => break,
            SyncAction::Abort(error) => panic!("{:?}", error),
        };
    }
    assert_eq!(
        log,
        vec![
            "fetch b 2",
            "install b 2 https://files/b",
            "fetch c 2",
            "install c 2 https://files/c",
            "remove old 1",
            "remove c 1",
            "lock",
        ]
    );
    assert_eq!(sync.stage, Stage::Done);
}

#[test]
fn nothing_to_do_still_writes_the_lock() {
    let mut sync = begin(vec![package("a", 1)]);
    let action = sync.step(SyncEvent::Resolved(vec![package("a", 1)]));
    assert!(matches!(action, SyncAction::WriteLock(p) if p == vec![package("a", 1)]));
    assert!(matches!(sync.step(SyncEvent::Succeeded), SyncAction::Finish));
}

#[test]
fn each_failure_is_told() {
    let mut sync = begin(Vec::new());
    match sync.step(SyncEvent::Failed) {
        SyncAction::Abort(error) => {
            assert_eq!(error.message(""), "Problem resolving dependencies")
        }
        other => panic!("{:?}", other),
    }
    assert_eq!(sync.stage, Stage::Failed);

    let mut sync = begin(Vec::new());
    sync.step(SyncEvent::Resolved(vec![package("a", 1)]));
    match sync.step(SyncEvent::Failed) {
        SyncAction::Abort(error) => {
            assert_eq!(error.message(""), "Problem getting warehouse data")
        }
        other => panic!("{:?}", other),
    }

    let mut sync = begin(Vec::new());
    sync.step(SyncEvent::Resolved(vec![package("a", 1)]));
    match sync.step(SyncEvent::Releases(Vec::new())) {
        SyncAction::Abort(error) => {
            assert_eq!(
                error.message("1.0.0"),
                "Unable to find a compatible release for a: 1.0.0"
            );
            assert!(matches!(error, SyncError::Select(_, _, SelectError::NoRelease)));
        }
        other => panic!("{:?}", other),
    }

    let mut sync = begin(Vec::new());
    sync.step(SyncEvent::Resolved(vec![package("a", 1)]));
    sync.step(SyncEvent::Releases(vec![wheel("a")]));
    match sync.step(SyncEvent::Failed) {
        SyncAction::Abort(error) => assert_eq!(error.message(""), "Problem downloading packages"),
        other => panic!("{:?}", other),
    }

    let mut sync = begin(Vec::new());
    sync.step(SyncEvent::Resolved(Vec::new()));
    match sync.step(SyncEvent::Failed) {
        SyncAction::Abort(error) => assert_eq!(error.message(""), "Problem writing lock file"),
        other => panic!("{:?}", other),
    }
}
