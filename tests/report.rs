use hash_folderoo::compare::MapEntry;
use hash_folderoo::report::{build_report, count_keys, duplicate_groups, extension_counts, top_indices_by_key, ReportSections};

fn entry(path: &str, hash: &str, size: u64) -> MapEntry {
    MapEntry { path: path.into(), hash: hash.into(), size, mtime: None }
}

fn sample() -> Vec<MapEntry> {
    vec![
        entry("a.txt", "h1", 10),
        entry("b.TXT", "h1", 10),
        entry("c.rs", "h2", 5),
        entry("d/e.txt", "h1", 10),
        entry("noext", "h3", 100),
        entry("f.rs", "h2", 5),
    ]
}

#[test]
fn sections_from_includes() {
    let all = ReportSections::from_includes(&vec![]);
    assert!(all.stats && all.duplicates && all.largest);
    let some = ReportSections::from_includes(&vec!["DUPLICATES".into(), "largest_files".into(), "x".into()]);
    assert!(!some.stats && some.duplicates && some.largest);
}

#[test]
fn groups_and_counts() {
    let g = duplicate_groups(&sample());
    assert_eq!(g.len(), 2);
    assert_eq!(g[0].hash, "h1");
    assert_eq!(g[0].count, 3);
    assert_eq!(g[0].total_bytes, 30);
    assert_eq!(g[0].wasted_bytes, 20);
    assert_eq!(g[0].paths, vec!["a.txt", "b.TXT", "d/e.txt"]);
    assert_eq!(g[1].wasted_bytes, 5);
    let exts = extension_counts(&sample());
    assert_eq!(exts, vec![("txt".to_string(), 3), ("rs".to_string(), 2), ("".to_string(), 1)]);
}

#[test]
fn top_indices() {
    assert_eq!(top_indices_by_key(&vec![3, 9, 9, 1], 3), vec![1, 2, 0]);
    assert_eq!(top_indices_by_key(&vec![3, 9], 5), vec![1, 0]);
    assert!(top_indices_by_key(&vec![], 5).is_empty());
}

#[test]
fn full_report() {
    let r = build_report(&sample(), &vec![], 1);
    let s = r.stats.unwrap();
    assert_eq!(s.total_files, 6);
    assert_eq!(s.total_size_bytes, 140);
    assert_eq!(s.duplicate_groups, 2);
    assert_eq!(s.duplicate_files, 3);
    assert_eq!(s.duplicate_wasted_bytes, 25);
    let d = r.duplicates.unwrap();
    assert_eq!(d.len(), 1);
    assert_eq!(d[0].hash, "h1");
    let l = r.largest_files.unwrap();
    assert_eq!(l.len(), 1);
    assert_eq!(l[0].path, "noext");
    assert_eq!(r.top_extensions.unwrap()[0], ("txt".to_string(), 3));
    let only = build_report(&sample(), &vec!["stats".into()], 3);
    assert!(only.duplicates.is_none() && only.largest_files.is_none() && only.stats.is_some());
}

#[test]
fn key_counting() {
    let keys: Vec<String> = vec!["b".into(), "a".into(), "b".into(), "".into(), "b".into()];
    assert_eq!(count_keys(&keys), vec![("b".to_string(), 3), ("a".to_string(), 1), ("".to_string(), 1)]);
    assert!(count_keys(&vec![]).is_empty());
}
