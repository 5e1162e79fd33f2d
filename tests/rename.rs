use hash_folderoo::rename::{plan_renames, FileName, RenameError, RenameRule};

fn files(names: &[&str]) -> Vec<FileName> {
    names.iter().map(|n| FileName { dir: "root".into(), name: n.to_string() }).collect()
}

#[test]
fn substring_pattern_plan() {
    let rule = RenameRule::from_pattern("a->b");
    let plan = plan_renames(&rule, &files(&["a.txt", "c.txt", "banana"]));
    let got: Vec<(String, String)> = plan.into_iter().map(|s| (s.from_name, s.to_name)).collect();
    assert_eq!(got, vec![("a.txt".into(), "b.txt".into()), ("banana".into(), "bbnbnb".into())]);
}

#[test]
fn pattern_without_arrow_removes_text() {
    let rule = RenameRule::from_pattern("_old");
    let plan = plan_renames(&rule, &files(&["x_old.txt"]));
    assert_eq!(plan.len(), 1);
    assert_eq!(plan[0].to_name, "x.txt");
    assert_eq!(plan[0].dir, "root");
}

#[test]
fn regex_rule() {
    let rule = RenameRule::from_regex("file(\\d)", Some("fileX")).ok().unwrap();
    let plan = plan_renames(&rule, &files(&["file1.txt", "file2.txt", "other"]));
    assert_eq!(plan.len(), 2);
    assert_eq!(plan[0].to_name, "fileX.txt");
    assert!(matches!(RenameRule::from_regex("(", Some("x")), Err(RenameError::InvalidRegex(_))));
    assert!(matches!(RenameRule::from_regex("a", None), Err(RenameError::MissingReplacement)));
}

#[test]
fn unchanged_names_are_skipped() {
    let rule = RenameRule::from_pattern("zzz->y");
    assert_eq!(rule.new_file_name("abc"), None);
    assert!(plan_renames(&rule, &files(&["abc"])).is_empty());
}
