use soroban_playground::validate::{is_safe_file_content, is_safe_filename};

#[test]
fn accepts_ordinary_file_names() {
    for name in ["lib.rs", "test_1.rs", "README.md", "notes-v2.txt", "a", "Z9", "é.rs"] {
        assert!(is_safe_filename(name), "{}", name);
    }
}

#[test]
fn rejects_escaping_file_names() {
    for name in ["", ".hidden", "-rf", "../x", "a/b", "a\\b", "a..b", "dir/", "a b", "x$y", "..", "a:b"] {
        assert!(!is_safe_filename(name), "{}", name);
    }
}

#[test]
fn generated_names_follow_the_rule() {
    let alphabet = ['a', 'Z', '3', '_', '-', '.', '/', '\\', ' '];
    for a in alphabet {
        for b in alphabet {
            for c in alphabet {
                let name: String = [a, b, c].iter().collect();
                let allowed = name.chars().all(|ch| ch.is_alphanumeric() || ch == '_' || ch == '-' || ch == '.');
                let expected = allowed && !name.starts_with('.') && !name.starts_with('-') && !name.contains("..");
                assert_eq!(is_safe_filename(&name), expected, "{}", name);
                if name.contains('/') || name.contains('\\') || name.contains("..") {
                    assert!(!is_safe_filename(&name), "{}", name);
                }
            }
        }
    }
}

const DENIED: [&str; 21] = [
    "std::process::", "Command::", "system(", "exec(", "/bin/", "/usr/bin/", "unsafe",
    "#[no_mangle]", "extern \"C\"", "asm!", "include_str!", "include_bytes!", "env!",
    "std::env::", "std::fs::", "std::net::", "tokio::process::", "tokio::fs::", "actix_web::",
    "reqwest::", "hyper::",
];

#[test]
fn rejects_every_denied_pattern() {
    for p in DENIED {
        assert!(!is_safe_file_content(p), "{}", p);
        let wrapped = format!("fn f() {{ let x = 1; }}\n{}\n// end", p);
        assert!(!is_safe_file_content(&wrapped), "{}", p);
    }
}

#[test]
fn framework_markers_do_not_exempt_denied_patterns() {
    for marker in ["use soroban_sdk::{contract};", "stellar", "#[contract]"] {
        for p in DENIED {
            let text = format!("{}\n{}", marker, p);
            assert!(!is_safe_file_content(&text), "{} {}", marker, p);
        }
        assert!(is_safe_file_content(marker));
    }
}

#[test]
fn accepts_plain_contract_source() {
    let src = "#![no_std]\nuse soroban_sdk::{contract, contractimpl, Env};\n\n#[contract]\npub struct ExampleContract;\n\n#[contractimpl]\nimpl ExampleContract {\n    pub fn add(_env: Env, a: i32, b: i32) -> i32 {\n        a + b\n    }\n}\n";
    assert!(is_safe_file_content(src));
    assert!(is_safe_file_content(""));
}

#[test]
fn pattern_split_across_text_is_not_a_match() {
    assert!(is_safe_file_content("uns afe"));
    assert!(!is_safe_file_content("xxunsafexx"));
}
