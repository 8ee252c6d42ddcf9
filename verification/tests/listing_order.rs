use gterm::sftp::{sort_entries, FileEntry};

fn entry(name: &str, is_dir: bool) -> FileEntry {
    FileEntry {
        name: String::from(name),
        path: format!("/r/{}", name),
        is_dir,
        size: 0,
        modified: 0,
        permissions: 0o644,
    }
}

fn names(v: &[FileEntry]) -> Vec<String> {
    let mut out = Vec::new();
    for e in v {
        out.push(e.name.clone());
    }
    out
}

#[test]
fn directories_first_then_case_insensitive() {
    let listing = vec![
        entry("b.txt", false),
        entry("Zeta", true),
        entry("Alpha.txt", false),
        entry("beta", true),
    ];
    let sorted = sort_entries(listing);
    assert_eq!(names(&sorted), vec!["beta", "Zeta", "Alpha.txt", "b.txt"]);
}

#[test]
fn case_only_differences_compare_equal() {
    let listing = vec![entry("README", false), entry("readme", false), entry("ReadMe", false)];
    let sorted = sort_entries(listing);
    // all three share one case-folded key, so each keeps its neighbours
    assert_eq!(sorted.len(), 3);
    for e in &sorted {
        assert_eq!(e.name.to_lowercase(), "readme");
    }
}

#[test]
fn empty_and_singleton_listings() {
    assert_eq!(sort_entries(Vec::new()).len(), 0);
    let one = sort_entries(vec![entry("only", true)]);
    assert_eq!(names(&one), vec!["only"]);
}

#[test]
fn result_is_a_permutation() {
    let listing = vec![
        entry("c", false),
        entry("a", true),
        entry("b", false),
        entry("a", true),
    ];
    let sorted = sort_entries(listing);
    assert_eq!(sorted.len(), 4);
    let ns = names(&sorted);
    assert_eq!(ns.iter().filter(|n| n.as_str() == "a").count(), 2);
    assert_eq!(ns.iter().filter(|n| n.as_str() == "b").count(), 1);
    assert_eq!(ns.iter().filter(|n| n.as_str() == "c").count(), 1);
    // directories lead
    assert!(sorted[0].is_dir && sorted[1].is_dir);
    assert!(!sorted[2].is_dir && !sorted[3].is_dir);
}
