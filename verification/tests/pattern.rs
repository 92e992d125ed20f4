use pypackage::pattern::{
    is_section_header, key_re, name_and_version, platform_of_wheel, value_of_key,
};

#[test]
fn section_headers_hold_a_pair_of_brackets() {
    assert!(is_section_header("[x]"));
    assert!(is_section_header("a [] b"));
    assert!(is_section_header("]x[y]"));
    assert!(is_section_header("[[x]"));
    assert!(!is_section_header(""));
    assert!(!is_section_header("[x"));
    assert!(!is_section_header("]["));
    assert!(!is_section_header("[\n]"));
}

#[test]
fn key_patterns_spell_the_key_out() {
    assert_eq!(key_re("name"), "^name\\s*=\\s*\"(.*)\"$");
}

#[test]
fn quoted_values_are_read() {
    assert_eq!(value_of_key("name", "name = \"a\""), Some("a".to_string()));
    assert_eq!(value_of_key("name", "name=\"\""), Some(String::new()));
    assert_eq!(value_of_key("name", "name\t =\u{3000}\u{a0}\"a\""), Some("a".to_string()));
    assert_eq!(value_of_key("name", "name\n=\n\"a\""), Some("a".to_string()));
    assert_eq!(value_of_key("name", "name = \"a\"b\"\""), Some("a\"b\"".to_string()));
    assert_eq!(value_of_key("name", "name = \"\u{e9}\""), Some("\u{e9}".to_string()));
}

#[test]
fn other_lines_give_no_value() {
    assert_eq!(value_of_key("name", ""), None);
    assert_eq!(value_of_key("name", "name = \""), None);
    assert_eq!(value_of_key("name", "name = \"a\" "), None);
    assert_eq!(value_of_key("name", "name = \"a\"\n"), None);
    assert_eq!(value_of_key("name", "name = \"a\nb\""), None);
    assert_eq!(value_of_key("name", "xname = \"a\""), None);
    assert_eq!(value_of_key("name", "name\u{200b}= \"a\""), None);
    assert_eq!(value_of_key("version", "py_version = \"a\""), None);
    assert_eq!(value_of_key("py_version", "version = \"a\""), None);
}

#[test]
fn long_plain_keys_work() {
    let key = "k_9az".repeat(65_500);
    let line = format!("{} = \"v\"", key);
    assert_eq!(value_of_key(&key, &line), Some("v".to_string()));
    assert_eq!(value_of_key(&key, "k = \"v\""), None);
    assert_eq!(value_of_key("", "= \"v\""), Some("v".to_string()));
}

#[test]
fn a_key_can_be_too_long_to_compile() {
    assert!(regex::Regex::new(&key_re(&"k".repeat(327_500))).is_ok());
    assert!(regex::Regex::new(&key_re(&"k".repeat(327_680))).is_err());
}

#[test]
fn wheel_names_give_their_platform() {
    assert_eq!(
        platform_of_wheel("numpy-1.16.4-cp37-cp37m-manylinux1_x86_64.whl"),
        Some("manylinux1_x86_64".to_string())
    );
    assert_eq!(platform_of_wheel("a-b-c-d-e-f-any.whl"), Some("any".to_string()));
    assert_eq!(platform_of_wheel("a-b-c-d-e_whl"), Some("e".to_string()));
    assert_eq!(platform_of_wheel("----.whl"), Some(String::new()));
    assert_eq!(platform_of_wheel("-----whl"), Some(String::new()));
    assert_eq!(platform_of_wheel("a-b-c-d-e.f.whl"), Some("e.f".to_string()));
}

#[test]
fn other_file_names_give_no_platform() {
    assert_eq!(platform_of_wheel(""), None);
    assert_eq!(platform_of_wheel("whl"), None);
    assert_eq!(platform_of_wheel("a-b-c-any.whl"), None);
    assert_eq!(platform_of_wheel("---- whl."), None);
    assert_eq!(platform_of_wheel("----whl"), None);
    assert_eq!(platform_of_wheel("a-b-c-d-an\ny.whl"), None);
    assert_eq!(platform_of_wheel("a-b-c-d-any.whl.zip"), None);
}

#[test]
fn metadata_folders_give_name_and_version() {
    let found = |n: &str, v: &str| Some((n.to_string(), v.to_string()));
    assert_eq!(name_and_version("numpy-1.16.4.dist-info"), found("numpy", "1.16.4"));
    assert_eq!(name_and_version("numpy-1.16.4.egg-info"), found("numpy", "1.16.4"));
    assert_eq!(name_and_version("a-b-1.dist-info"), found("a", "b-1"));
    assert_eq!(name_and_version("-.dist-info"), found("", ""));
    assert_eq!(name_and_version("a-1.dist-info.dist-info"), found("a", "1.dist-info"));
}

#[test]
fn other_folders_give_nothing() {
    assert_eq!(name_and_version("numpy"), None);
    assert_eq!(name_and_version("numpy.dist-info"), None);
    assert_eq!(name_and_version("numpy-1.dist_info"), None);
    assert_eq!(name_and_version("numpy-1xdist-info"), None);
    assert_eq!(name_and_version("numpy-1.dist-info "), None);
    assert_eq!(name_and_version("num\npy-1.egg-info"), None);
}

/// All texts over `alphabet` with at most `n` characters.
fn all_texts(alphabet: &[char], n: usize) -> Vec<String> {
    let mut texts = vec![String::new()];
    let mut last = vec![String::new()];
    for _ in 0..n {
        let mut next = Vec::new();
        for text in &last {
            for c in alphabet {
                next.push(format!("{}{}", text, c));
            }
        }
        texts.extend(next.iter().cloned());
        last = next;
    }
    texts
}

#[test]
fn section_headers_are_told_on_all_short_texts() {
    for text in all_texts(&['[', ']', '\n', 'a'], 5) {
        let expected = text.split('\n').any(|line| match (line.find('['), line.rfind(']')) {
            (Some(open), Some(close)) => open < close,
            _ => false,
        });
        assert_eq!(is_section_header(&text), expected, "{:?}", text);
    }
}

#[test]
fn platforms_are_found_in_all_short_names() {
    for front in all_texts(&['-', 'a', '\n'], 6) {
        for end in ["whl", "-whl", ".whl", "\nwhl", "wh"] {
            let name = format!("{}{}", front, end);
            let expected = if name.contains('\n') || !name.ends_with("whl") || name.len() < 4 {
                None
            } else {
                let stem = &name[..name.len() - 4];
                if stem.matches('-').count() >= 4 {
                    stem.rsplit('-').next().map(|p| p.to_string())
                } else {
                    None
                }
            };
            assert_eq!(platform_of_wheel(&name), expected, "{:?}", name);
        }
    }
}

#[test]
fn metadata_is_found_in_all_short_names() {
    for front in all_texts(&['-', 'a', '\n'], 5) {
        for end in [".dist-info", ".egg-info", "-info"] {
            let name = format!("{}{}", front, end);
            let expected = if name.contains('\n') || end == "-info" {
                None
            } else {
                front.split_once('-').map(|(n, v)| (n.to_string(), v.to_string()))
            };
            assert_eq!(name_and_version(&name), expected, "{:?}", name);
        }
    }
}

#[test]
fn values_are_found_in_all_short_lines() {
    for rest in all_texts(&['"', '=', ' ', '\n', 'k'], 5) {
        let line = format!("k{}", rest);
        let expected = (|| {
            let rest = rest.trim_start();
            let rest = rest.strip_prefix('=')?.trim_start();
            let value = rest.strip_prefix('"')?.strip_suffix('"')?;
            if value.contains('\n') {
                None
            } else {
                Some(value.to_string())
            }
        })();
        assert_eq!(value_of_key("k", &line), expected, "{:?}", line);
    }
}
