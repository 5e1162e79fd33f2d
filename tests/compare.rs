use hash_folderoo::compare::{compare_maps, ChangeStatus, ComparisonReport, MapEntry};

fn entry(path: &str, hash: &str, size: u64) -> MapEntry {
    MapEntry { path: path.into(), hash: hash.into(), size, mtime: None }
}

#[test]
fn compare_basic() {
    let a = vec![entry("a.txt", "h1", 1), entry("b.txt", "h2", 2), entry("c.txt", "h3", 3)];
    let b = vec![
        entry("a.txt", "h1", 1),  // identical
        entry("b.txt", "h2b", 2), // changed
        entry("d.txt", "h3", 3),  // moved (c -> d)
        entry("e.txt", "h4", 4),  // new
    ];

    let r = compare_maps(a, b);
    assert_eq!(r.identical.len(), 1);
    assert_eq!(r.changed.len(), 1);
    assert_eq!(r.moved.len(), 1);
    assert_eq!(r.missing.len(), 0);
    assert_eq!(r.new.len(), 1);
}

#[test]
fn compare_details() {
    let a = vec![entry("a", "h1", 1), entry("gone", "hx", 5), entry("c", "h3", 3)];
    let b = vec![entry("a", "h9", 1), entry("d", "h3", 3), entry("e", "h3", 3)];
    let r = compare_maps(a, b);
    assert_eq!(r.changed[0].0.hash, "h1");
    assert_eq!(r.changed[0].1.hash, "h9");
    assert_eq!(r.missing, vec![entry("gone", "hx", 5)]);
    assert_eq!(r.moved.len(), 1);
    assert_eq!(r.moved[0].1.path, "d");
    assert!(r.new.is_empty());
}

#[test]
fn duplicate_paths_count_once() {
    let a = vec![entry("a", "old", 1), entry("a", "new", 1)];
    let b = vec![entry("a", "new", 1)];
    let r = compare_maps(a, b);
    assert_eq!(r.identical.len(), 1);
    assert!(r.changed.is_empty());
}

#[test]
fn empty_report() {
    let r = ComparisonReport::new();
    assert!(r.identical.is_empty() && r.changed.is_empty() && r.moved.is_empty());
    assert!(r.missing.is_empty() && r.new.is_empty());
}

#[test]
fn rows_in_group_order() {
    let a = vec![entry("a", "h1", 1), entry("b", "h2", 2), entry("gone", "hx", 3)];
    let b = vec![entry("a", "h1", 1), entry("b", "h9", 2), entry("n", "hn", 4)];
    let r = compare_maps(a, b);
    let rows = r.rows();
    let statuses: Vec<ChangeStatus> = rows.iter().map(|x| x.status).collect();
    assert_eq!(
        statuses,
        vec![ChangeStatus::Identical, ChangeStatus::Changed, ChangeStatus::Missing, ChangeStatus::New]
    );
    assert_eq!(rows[0].source, rows[0].target);
    assert!(rows[2].target.is_none());
    assert!(rows[3].source.is_none());
    assert_eq!(rows[3].target.as_ref().unwrap().path, "n");
}
