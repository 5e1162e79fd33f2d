use hash_folderoo::diff::{format_copy_diff, format_remove_dir_diff, format_rename_diff, FileLines};

#[test]
fn copy_diff_contains_paths() {
    let s = format_copy_diff("a/foo.txt", "b/foo.txt", true, None, None);
    assert!(s.contains("diff --git a/a/foo.txt b/b/foo.txt"));
    assert!(s.contains("new file mode"));
}

#[test]
fn rename_diff_contains_paths() {
    let s = format_rename_diff("a/old.txt", "a/new.txt", None);
    assert!(s.contains("rename from a/old.txt"));
    assert!(s.contains("rename to   a/new.txt"));
}

#[test]
fn copy_diff_exact_text() {
    let s = format_copy_diff("x", "y", false, Some("skip"), None);
    assert_eq!(s, "diff --git a/x b/y\nmodified (conflict strategy: skip)\n--- a/x\n+++ b/y\n\n");
    let m = format_copy_diff("x", "y", false, None, None);
    assert_eq!(m, "diff --git a/x b/y\nmodified\n--- a/x\n+++ b/y\n\n");
}

#[test]
fn copy_diff_with_hunk() {
    let lines = FileLines {
        src: vec!["hello".into(), "world".into(), "tail".into()],
        dst: vec!["hello".into(), "changed".into()],
    };
    let s = format_copy_diff("a", "b", false, None, Some(&lines));
    assert!(s.ends_with("@@ -1,3 +1,2 @@\n hello\n-world\n+changed\n-tail\n\n"));
    let r = format_rename_diff("a", "b", Some(&FileLines { src: vec![], dst: vec!["z".into(); 12] }));
    assert!(r.contains("@@ -1,0 +1,12 @@\n+z\n"));
}

#[test]
fn remove_dir_diff_text() {
    assert_eq!(
        format_remove_dir_diff("d/e"),
        "diff --git a/d/e b/d/e\ndeleted dir mode 040000\n--- a/d/e\n+++ /dev/null\n\n"
    );
}
