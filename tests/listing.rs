use rnpmrc::listing::{list_all_profiles, text_precedes, Entry};

fn file(name: &str) -> Entry {
    Entry { name: name.to_string(), is_file: true }
}

#[test]
fn list_keeps_profiles_and_drops_unrelated_file() {
    let entries = vec![file(".npmrc.beta"), file("notes.txt"), file(".npmrc.alpha")];
    assert_eq!(
        list_all_profiles(&entries),
        vec![".npmrc.alpha".to_string(), ".npmrc.beta".to_string()]
    );
}

#[test]
fn list_skips_directories() {
    let entries = vec![
        Entry { name: ".npmrc.dir".to_string(), is_file: false },
        file(".npmrc.work"),
    ];
    assert_eq!(list_all_profiles(&entries), vec![".npmrc.work".to_string()]);
}

#[test]
fn list_of_empty_root_is_empty() {
    assert!(list_all_profiles(&Vec::new()).is_empty());
}

#[test]
fn list_is_in_lexicographic_order() {
    let names = [".npmrc.c", ".npmrc.a", ".npmrc.b", ".npmrc.ab", ".npmrc.B", ".npmrc.a"];
    let entries: Vec<Entry> = names.iter().map(|n| file(n)).collect();
    let mut expected: Vec<String> = names.iter().map(|n| n.to_string()).collect();
    expected.sort();
    assert_eq!(list_all_profiles(&entries), expected);
}

#[test]
fn text_order_is_lexicographic() {
    let a: Vec<char> = "ab".chars().collect();
    let b: Vec<char> = "b".chars().collect();
    let c: Vec<char> = "abc".chars().collect();
    assert!(text_precedes(&a, &b));
    assert!(!text_precedes(&b, &a));
    assert!(text_precedes(&a, &c));
    assert!(!text_precedes(&c, &a));
    assert!(text_precedes(&a, &a));
}
