use pypackage::alias::{
    alias_offers, find_py_alias, possible_aliases, prompt_alias, AliasChoice, AliasError,
    PromptError,
};
use pypackage::version::Version;

fn show(v: &Version) -> String {
    format!("{}.{}.{}", v.major, v.minor, v.patch)
}

#[test]
fn the_possible_aliases_are_listed_newest_first() {
    assert_eq!(
        possible_aliases(),
        vec![
            "python3.10", "python3.9", "python3.8", "python3.7", "python3.6", "python3.5",
            "python3.4", "python3.3", "python3.2", "python3.1", "python3", "python", "python2",
        ]
    );
}

#[test]
fn no_python_is_an_error() {
    let error = find_py_alias(&vec![None; 13]).unwrap_err();
    assert_eq!(error.description(), "Can't find Python on the path.");
    assert_eq!(error.details, "Can't find Python on the path.");
    let made = AliasError { details: "x".to_string() };
    assert_eq!(made.description(), "x");
}

#[test]
fn one_python_is_taken() {
    let mut versions = vec![None; 13];
    versions[3] = Some(Version::new(3, 7, 2));
    match find_py_alias(&versions).unwrap() {
        AliasChoice::Only(name, version) => {
            assert_eq!(name, "python3.7");
            assert_eq!(version, Version::new(3, 7, 2));
        }
        other => panic!("{:?}", other),
    }
}

#[test]
fn several_pythons_are_offered_in_order() {
    let mut versions = vec![None; 13];
    versions[12] = Some(Version::new(2, 7, 16));
    versions[0] = Some(Version::new(3, 10, 1));
    versions[10] = Some(Version::new(3, 10, 1));
    match find_py_alias(&versions).unwrap() {
        AliasChoice::Several(all) => {
            assert_eq!(
                all,
                vec![
                    ("python3.10".to_string(), Version::new(3, 10, 1)),
                    ("python3".to_string(), Version::new(3, 10, 1)),
                    ("python2".to_string(), Version::new(2, 7, 16)),
                ]
            );
            assert_eq!(
                alias_offers(&all, show),
                vec![
                    "1: python3.10 version: 3.10.1",
                    "2: python3 version: 3.10.1",
                    "3: python2 version: 2.7.16",
                ]
            );
        }
        other => panic!("{:?}", other),
    }
}

#[test]
fn the_answer_chooses_by_its_first_character() {
    let aliases = vec![
        ("python3".to_string(), Version::new(3, 7, 0)),
        ("python".to_string(), Version::new(2, 7, 0)),
    ];
    assert_eq!(prompt_alias(&aliases, "1\n"), Ok(("python3".to_string(), Version::new(3, 7, 0))));
    assert_eq!(prompt_alias(&aliases, "2"), Ok(("python".to_string(), Version::new(2, 7, 0))));
    assert_eq!(prompt_alias(&aliases, "12"), Ok(("python3".to_string(), Version::new(3, 7, 0))));
    assert_eq!(prompt_alias(&aliases, ""), Err(PromptError::NoInput));
    assert_eq!(prompt_alias(&aliases, "\n"), Err(PromptError::NotANumber));
    assert_eq!(prompt_alias(&aliases, "+1"), Err(PromptError::NotANumber));
    assert_eq!(prompt_alias(&aliases, "\u{661}"), Err(PromptError::NotANumber));
    assert_eq!(prompt_alias(&aliases, "0"), Err(PromptError::NotInList));
    assert_eq!(prompt_alias(&aliases, "3"), Err(PromptError::NotInList));
    assert_eq!(prompt_alias(&Vec::new(), "1"), Err(PromptError::NotInList));
}

#[test]
fn refused_answers_are_explained() {
    assert_eq!(PromptError::NoInput.message(), "Problem reading input");
    assert_eq!(
        PromptError::NotANumber.message(),
        "Enter the number associated with the Python alias."
    );
    assert_eq!(
        PromptError::NotInList.message(),
        "Can't find the Python alias associated with that number. Is it in the list above?"
    );
}
