use pypackage::environment::{
    choose_environment, create_venv, script_invocation, Environment, EnvironmentChoice,
};
use pypackage::text::{decimal_text, find_text};
use pypackage::version::Version;

#[test]
fn numbers_are_written_in_decimal() {
    assert_eq!(decimal_text(0), "0");
    assert_eq!(decimal_text(9), "9");
    assert_eq!(decimal_text(10), "10");
    assert_eq!(decimal_text(1234567890), "1234567890");
    assert_eq!(decimal_text(u64::MAX), u64::MAX.to_string());
}

#[test]
fn texts_are_searched() {
    assert!(find_text("macosx", "mac"));
    assert!(find_text("a_mamac", "mac"));
    assert!(find_text("x", ""));
    assert!(find_text("", ""));
    assert!(!find_text("", "mac"));
    assert!(!find_text("ma", "mac"));
    assert!(!find_text("ma-c", "mac"));
}

#[test]
fn directories_leave_the_patch_out() {
    let environment = Environment::new(Version::new(3, 10, 4));
    assert_eq!(environment.dir, "3.10");
    assert_eq!(environment.version, Version::new_short(3, 10));
    assert_eq!(environment.lib_dir(), "3.10/lib");
    assert_eq!(environment.venv_dir(), "3.10/.venv");
    assert_eq!(Environment::new(Version::new(3, 10, 0)).dir, environment.dir);
    assert_ne!(Environment::new(Version::new(31, 0, 0)).dir, environment.dir);
}

#[test]
fn the_configured_version_comes_first() {
    let found = vec![Version::new_short(3, 5), Version::new_short(3, 6)];
    match choose_environment(Some(Version::new(3, 7, 2)), &found) {
        EnvironmentChoice::Configured(environment) => {
            assert_eq!(environment.dir, "3.7");
            assert_eq!(environment.version, Version::new_short(3, 7));
        }
        other => panic!("{:?}", other),
    }
}

#[test]
fn without_a_configured_version_the_only_one_counts() {
    assert!(matches!(choose_environment(None, &Vec::new()), EnvironmentChoice::Create));
    match choose_environment(None, &vec![Version::new_short(3, 6)]) {
        EnvironmentChoice::Found(environment) => assert_eq!(environment.dir, "3.6"),
        other => panic!("{:?}", other),
    }
    let two = vec![Version::new_short(3, 5), Version::new_short(3, 6)];
    assert!(matches!(choose_environment(None, &two), EnvironmentChoice::Ambiguous));
}

#[test]
fn a_virtual_environment_is_planned() {
    for configured in [None, Some(Version::new(3, 7, 2))] {
        let plan = create_venv(configured, Version::new(3, 7, 2)).unwrap();
        assert_eq!(plan.version, Version::new(3, 7, 2));
        assert_eq!(plan.environment.dir, "3.7");
        assert_eq!(plan.environment.version, Version::new_short(3, 7));
        assert_eq!(plan.lib_dir, "3.7/lib");
        assert_eq!(plan.python, "3.7/lib/../.venv/bin/python");
        assert_eq!(plan.pip, "3.7/lib/../.venv/bin/pip");
    }
}

#[test]
fn another_version_than_the_configured_is_refused() {
    let mismatch = create_venv(Some(Version::new(3, 7, 0)), Version::new(3, 7, 2)).unwrap_err();
    assert_eq!(mismatch.configured, Version::new(3, 7, 0));
    assert_eq!(mismatch.selected, Version::new(3, 7, 2));
    assert_eq!(
        mismatch.message("3.7.2", "3.7.0"),
        "The Python version you selected (3.7.2) doesn't match the one specified in `pyprojecttoml` (3.7.0)"
    );
}

#[test]
fn scripts_take_the_remaining_words() {
    assert_eq!(script_invocation(&Vec::new()), None);
    let words: Vec<String> = ["black", "-l", "80"].iter().map(|w| w.to_string()).collect();
    assert_eq!(
        script_invocation(&words),
        Some(("black".to_string(), vec!["-l".to_string(), "80".to_string()]))
    );
}
