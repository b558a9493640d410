use soroban_playground::files::FileSet;
use soroban_playground::identity::{digest_prefix, job_digest};
use soroban_playground::naming::{artifact_name, extract_name, to_normalized_form};

const SHA256_ABC: &str = "ba7816bf8f01cfea414140de5dae2223b00361a396177a9cb410ff61f20015ad";
/// SHA-256 of the bytes 0,0,0,0,0,0,0,1,'a',0,0,0,0,0,0,0,2,'b','c': the
/// name "a" and the content "bc", each after its length in eight bytes.
const SHA256_A_BC: &str = "3fafa1cf2f19a7c1129beb20cf0983f73a489a221fc0dd2f16d1be292d089205";
const SHA256_EMPTY: &str = "e3b0c44298fc1c149afbf4c8996fb92427ae41e4649b934ca495991b7852b855";

fn set(pairs: &[(&str, &str)]) -> FileSet {
    let mut f = FileSet::new();
    for (n, c) in pairs {
        f.insert(n.to_string(), c.to_string());
    }
    f
}

#[test]
fn digest_of_source_is_its_sha256() {
    assert_eq!(job_digest("abc", None), SHA256_ABC);
    assert_eq!(job_digest("", None), SHA256_EMPTY);
}

#[test]
fn digest_of_files_covers_names_and_contents() {
    assert_eq!(job_digest("ignored", Some(&set(&[("a", "bc")]))), SHA256_A_BC);
    assert_eq!(job_digest("x", Some(&FileSet::new())), SHA256_EMPTY);
}

#[test]
fn digest_keeps_names_and_contents_apart() {
    let a = job_digest("", Some(&set(&[("ab", "c")])));
    let b = job_digest("", Some(&set(&[("a", "bc")])));
    assert_ne!(a, b);
    let c = job_digest("", Some(&set(&[("ab", ""), ("c", "")])));
    let d = job_digest("", Some(&set(&[("a", "bc")])));
    assert_ne!(c, d);
}

#[test]
fn digest_ignores_insertion_order() {
    let a = set(&[("lib.rs", "code"), ("Cargo.toml", "[package]"), ("README.md", "hi")]);
    let b = set(&[("README.md", "hi"), ("lib.rs", "code"), ("Cargo.toml", "[package]")]);
    assert_eq!(job_digest("", Some(&a)), job_digest("", Some(&b)));
    let c = set(&[("README.md", "hi"), ("lib.rs", "code2"), ("Cargo.toml", "[package]")]);
    assert_ne!(job_digest("", Some(&a)), job_digest("", Some(&c)));
    assert_eq!(job_digest("", Some(&a)).len(), 64);
}

#[test]
fn file_set_keeps_names_unique_and_sorted() {
    let mut f = set(&[("b", "1"), ("a", "2"), ("b", "3")]);
    assert_eq!(f.len(), 2);
    assert_eq!(f.get("b").map(|s| s.as_str()), Some("3"));
    assert_eq!(f.get("a").map(|s| s.as_str()), Some("2"));
    assert_eq!(f.get("c"), None);
    let (n0, _) = f.entry(0);
    assert_eq!(n0, "a");
    f.insert("Z".to_string(), "4".to_string());
    assert_eq!(f.entry(0).0, "Z");
}

#[test]
fn digest_prefix_takes_twelve_characters() {
    assert_eq!(digest_prefix(SHA256_ABC), "ba7816bf8f01");
    assert_eq!(digest_prefix("abc"), "abc");
}

#[test]
fn normalized_form_fixtures() {
    assert_eq!(to_normalized_form("MyContract"), "my_contract");
    assert_eq!(to_normalized_form("ABCContract"), "abccontract");
    assert_eq!(to_normalized_form("simple"), "simple");
    assert_eq!(to_normalized_form("HelloWorldToken"), "hello_world_token");
    assert_eq!(to_normalized_form(""), "");
    assert_eq!(to_normalized_form("my_contract"), "my_contract");
}

#[test]
fn normalized_form_is_idempotent() {
    for name in ["MyContract", "ABCContract", "simple", "aB", "x1Y2", "Already_Snake"] {
        let once = to_normalized_form(name);
        assert_eq!(to_normalized_form(&once), once);
    }
}

#[test]
fn extracts_first_contract_name() {
    let src = "#![no_std]\nuse soroban_sdk::contract;\n#[contract]\npub struct HelloContract;\n#[contract]\npub struct Other;";
    assert_eq!(extract_name(src).as_deref(), Some("HelloContract"));
    assert_eq!(extract_name("#[contract]\nstruct Plain;").as_deref(), Some("Plain"));
    assert_eq!(extract_name("#[contract]  pub   struct  Spaced {}").as_deref(), Some("Spaced"));
}

#[test]
fn ignores_contracts_in_comments() {
    let src = "// #[contract]\n// pub struct Hidden;\n/* #[contract] pub struct AlsoHidden; */\n#[contract]\npub struct Shown;";
    assert_eq!(extract_name(src).as_deref(), Some("Shown"));
    assert_eq!(extract_name("// #[contract] pub struct Gone;"), None);
    assert_eq!(extract_name("pub struct NoMarker;"), None);
    assert_eq!(extract_name("#[contract]\npub fn f() {}"), None);
}

#[test]
fn artifact_name_defaults_to_project() {
    assert_eq!(artifact_name("#[contract]\npub struct MyContract;"), "my_contract");
    assert_eq!(artifact_name("fn main() {}"), "project");
}
