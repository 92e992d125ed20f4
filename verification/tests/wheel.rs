use pypackage::version::Version;
use pypackage::wheel::{
    os_from_wheel_fname, select_release, Candidate, Os, PackageType, PythonRequirement, Release,
    SelectError, WheelError,
};

fn release(packagetype: &str, filename: &str, python_version: &str) -> Release {
    Release {
        packagetype: packagetype.to_string(),
        filename: filename.to_string(),
        url: format!("https://files/{}", filename),
        md5_digest: "d41d".to_string(),
        python_version: python_version.to_string(),
        requires_python: None,
    }
}

fn wheel(platform: &str) -> Candidate {
    Candidate {
        release: release("bdist_wheel", &format!("a-1-py3-none-{}.whl", platform), "py3"),
        requirement: PythonRequirement::Absent,
        built_for: None,
    }
}

fn source() -> Candidate {
    Candidate {
        release: release("sdist", "a-1.tar.gz", "source"),
        requirement: PythonRequirement::NotMet,
        built_for: None,
    }
}

const PYTHON: Version = Version { major: 3, minor: 7, patch: 0 };

#[test]
fn platforms_are_known() {
    let os = |platform: &str| os_from_wheel_fname(&format!("a-1-cp37-cp37m-{}.whl", platform));
    assert!(matches!(os("manylinux1_i686"), Ok(Os::Linux32)));
    assert!(matches!(os("manylinux1_x86_64"), Ok(Os::Linux)));
    assert!(matches!(os("win32"), Ok(Os::Windows32)));
    assert!(matches!(os("win_amd64"), Ok(Os::Windows)));
    assert!(matches!(os("any"), Ok(Os::Any)));
    assert!(matches!(os("macosx_10_6_intel.macosx_10_9_x86_64"), Ok(Os::Mac)));
    assert!(matches!(os("xmac"), Ok(Os::Mac)));
}

#[test]
fn other_platforms_are_refused() {
    let error = os_from_wheel_fname("a-1-cp37-cp37m-linux_armv7l.whl").unwrap_err();
    assert_eq!(error.message(), "Unknown OS type in wheel filename: linux_armv7l");
    assert!(matches!(error, WheelError::UnknownPlatform(_)));
    let error = os_from_wheel_fname("a-1.tar.gz").unwrap_err();
    assert_eq!(error.message(), "Problem parsing os from wheel name");
    assert!(matches!(
        os_from_wheel_fname("a-1-cp37-cp37m-ma_c.whl"),
        Err(WheelError::UnknownPlatform(p)) if p == "ma_c"
    ));
}

#[test]
fn the_first_suitable_wheel_is_taken() {
    let all = vec![source(), wheel("win32"), wheel("any"), wheel("manylinux1_x86_64")];
    assert!(matches!(select_release(&all, PYTHON, Os::Linux), Ok((2, PackageType::Wheel))));
    assert!(matches!(select_release(&all, PYTHON, Os::Windows32), Ok((1, PackageType::Wheel))));
}

#[test]
fn a_source_archive_is_the_fallback() {
    let all = vec![wheel("win32"), source(), source()];
    assert!(matches!(select_release(&all, PYTHON, Os::Linux), Ok((1, PackageType::Source))));
}

#[test]
fn nothing_suitable_is_an_error() {
    let none = select_release(&Vec::new(), PYTHON, Os::Linux).unwrap_err();
    assert!(matches!(none, SelectError::NoRelease));
    assert_eq!(
        none.message("numpy", "1.16.4"),
        "Unable to find a compatible release for numpy: 1.16.4"
    );
    let all = vec![wheel("win32")];
    assert!(matches!(select_release(&all, PYTHON, Os::Linux), Err(SelectError::NoRelease)));
}

#[test]
fn the_python_that_a_wheel_is_for_counts() {
    let mut other = wheel("any");
    other.built_for = Some(Version::new_short(3, 5));
    other.release.python_version = "cp35".to_string();
    let fits = |c: Candidate| select_release(&vec![c], PYTHON, Os::Linux).is_ok();
    assert!(!fits(other));
    let mut same = wheel("any");
    same.built_for = Some(PYTHON);
    same.release.python_version = "cp37".to_string();
    assert!(fits(same));
    for tag in ["py3", "py2.py3"] {
        let mut general = wheel("any");
        general.built_for = Some(Version::new_short(3, 0));
        general.release.python_version = tag.to_string();
        assert!(fits(general));
    }
    let mut refused = wheel("any");
    refused.requirement = PythonRequirement::NotMet;
    assert!(!fits(refused));
    let mut met = wheel("any");
    met.requirement = PythonRequirement::Met;
    assert!(fits(met));
}

#[test]
fn the_first_fault_is_told() {
    let mut unreadable = wheel("beos");
    unreadable.requirement = PythonRequirement::Unreadable;
    let error = select_release(&vec![wheel("any"), unreadable], PYTHON, Os::Linux).unwrap_err();
    assert_eq!(error.message("a", "1"), "Problem parsing constraint from requires_python");
    let mut strange = wheel("any");
    strange.release.packagetype = "bdist_egg".to_string();
    let all = vec![wheel("any"), strange, wheel("beos")];
    let error = select_release(&all, PYTHON, Os::Linux).unwrap_err();
    assert_eq!(error.message("a", "1"), "Found surprising package type: bdist_egg");
    let error = select_release(&vec![wheel("beos")], PYTHON, Os::Linux).unwrap_err();
    assert_eq!(error.message("a", "1"), "Unknown OS type in wheel filename: beos");
    let mut unnamed = wheel("any");
    unnamed.release.filename = "a.whl".to_string();
    let error = select_release(&vec![unnamed], PYTHON, Os::Linux).unwrap_err();
    assert_eq!(error.message("a", "1"), "Problem getting os from wheel name");
}

#[test]
fn candidates_are_assessed() {
    let allows = |text: &str| match text {
        ">=3" => Some(true),
        "<3" => Some(false),
        _ => None,
    };
    let tag = |text: &str| if text == "cp37" { Some(PYTHON) } else { None };
    let assess = |requires: Option<&str>, python_version: &str| {
        let mut r = release("bdist_wheel", "f", python_version);
        r.requires_python = requires.map(|t| t.to_string());
        Candidate::new(r, allows, tag)
    };
    assert_eq!(assess(None, "cp37").requirement, PythonRequirement::Absent);
    assert_eq!(assess(Some(">=3"), "x").requirement, PythonRequirement::Met);
    assert_eq!(assess(Some("<3"), "x").requirement, PythonRequirement::NotMet);
    assert_eq!(assess(Some("?"), "x").requirement, PythonRequirement::Unreadable);
    assert_eq!(assess(None, "cp37").built_for, Some(PYTHON));
    assert_eq!(assess(None, "source").built_for, None);
    assert_eq!(assess(None, "cp37").release.filename, "f");
}
