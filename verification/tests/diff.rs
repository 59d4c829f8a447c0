use edge_orchestrator::storage::diff::diff_trees;
use edge_orchestrator::traits::{ObjectMode, TreeEntry};

fn entry(name: &str, hash: &str) -> TreeEntry {
    TreeEntry {
        name: name.into(),
        hash: hash.into(),
        mode: ObjectMode::Blob,
    }
}

#[test]
fn identical_trees_produce_empty_diff() {
    let old = vec![entry("a.txt", "abc"), entry("b.txt", "def")];
    let new = vec![entry("a.txt", "abc"), entry("b.txt", "def")];
    let diff = diff_trees(&old, &new);
    assert!(diff.is_empty());
    assert_eq!(diff.unchanged.len(), 2);
}

#[test]
fn added_file_detected() {
    let old = vec![entry("a.txt", "abc")];
    let new = vec![entry("a.txt", "abc"), entry("b.txt", "def")];
    let diff = diff_trees(&old, &new);
    assert_eq!(diff.added_or_modified.len(), 1);
    assert_eq!(diff.added_or_modified[0].name, "b.txt");
}

#[test]
fn removed_file_detected() {
    let old = vec![entry("a.txt", "abc"), entry("b.txt", "def")];
    let new = vec![entry("a.txt", "abc")];
    let diff = diff_trees(&old, &new);
    assert_eq!(diff.removed.len(), 1);
    assert_eq!(diff.removed[0].name, "b.txt");
}

#[test]
fn modified_file_detected() {
    let old = vec![entry("a.txt", "abc")];
    let new = vec![entry("a.txt", "xyz")];
    let diff = diff_trees(&old, &new);
    assert_eq!(diff.added_or_modified.len(), 1);
    assert_eq!(diff.added_or_modified[0].hash, "xyz");
}

#[test]
fn changes_are_counted() {
    let old = vec![entry("a.txt", "1"), entry("b.txt", "2"), entry("c.txt", "3")];
    let new = vec![entry("a.txt", "1"), entry("b.txt", "9"), entry("d.txt", "4")];
    let diff = diff_trees(&old, &new);
    assert_eq!(diff.change_count(), 3);
    assert!(!diff.is_empty());
    assert_eq!(diff_trees(&old, &old).change_count(), 0);
}

#[test]
fn difference_the_other_way_mirrors_it() {
    let old = vec![entry("a.txt", "1"), entry("b.txt", "2"), entry("c.txt", "3")];
    let new = vec![entry("a.txt", "1"), entry("b.txt", "9"), entry("d.txt", "4")];
    let there = diff_trees(&old, &new);
    let back = diff_trees(&new, &old);
    let names = |list: &[TreeEntry]| list.iter().map(|e| e.name.clone()).collect::<Vec<_>>();
    assert_eq!(names(&there.added_or_modified), ["b.txt", "d.txt"]);
    assert_eq!(names(&back.removed), ["d.txt"]);
    assert_eq!(names(&back.added_or_modified), ["b.txt", "c.txt"]);
    assert_eq!(names(&there.removed), ["c.txt"]);
    assert_eq!(names(&there.unchanged), names(&back.unchanged));
    assert_eq!(there.change_count(), back.change_count());
    assert_eq!(there.change_count() + there.unchanged.len(), 4, "four names in all");
}

#[test]
fn changed_mode_is_a_modification() {
    let old = vec![entry("a.txt", "abc")];
    let mut new = vec![entry("a.txt", "abc")];
    new[0].mode = ObjectMode::Executable;
    let diff = diff_trees(&old, &new);
    assert_eq!(diff.unchanged, vec![]);
    assert_eq!(diff.added_or_modified, new);
    assert_eq!(diff.removed, vec![]);
    assert_eq!(diff.change_count(), 1);
    assert!(!diff.is_empty());
}
