use vhs_86::disk_usage::{dir_node, disk_node, file_node, leaf_node, rank_sizes, reads_children, truncate, DiskUsageView};

#[test]
fn totals_add_children_and_own_size() {
    let a = file_node("a".to_string(), "/d/a".to_string(), 10);
    let b = leaf_node("b".to_string(), "/d/b".to_string(), 5);
    let d = dir_node("d".to_string(), "/d".to_string(), vec![a, b]);
    assert_eq!(d.total_size(), 15);
    assert_eq!(d.children[0].name, "a");
}

#[test]
fn children_are_ranked_largest_first_and_capped() {
    let mut children = Vec::new();
    for i in 0..25u64 {
        children.push(file_node(format!("f{}", i), format!("/d/f{}", i), i % 5));
    }
    let d = dir_node("d".to_string(), "/d".to_string(), children);
    assert_eq!(d.children.len(), 20);
    assert_eq!(d.children[0].name, "f4");
    assert_eq!(d.children[1].name, "f9");
    for w in d.children.windows(2) {
        assert!(w[0].total_size() >= w[1].total_size());
    }
}

#[test]
fn names_are_truncated_to_fit() {
    assert_eq!(truncate("short", 20), "short");
    assert_eq!(truncate("a_very_long_directory_name", 20), "a_very_long_direc...");
    assert_eq!(truncate("abcdef", 2), "...");
}

#[test]
fn sizes_are_ranked_stably() {
    let r = rank_sizes(vec![("a".to_string(), 1), ("b".to_string(), 3), ("c".to_string(), 1)]);
    let names: Vec<&str> = r.iter().map(|e| e.0.as_str()).collect();
    assert_eq!(names, vec!["b", "a", "c"]);
}

#[test]
fn disk_view_moves_within_its_entries() {
    let mut v = DiskUsageView::new();
    v.move_down();
    assert_eq!(v.selected, 0);
    v.open("/d", vec![("x".to_string(), 1), ("y".to_string(), 2)]);
    assert!(v.visible);
    assert_eq!(v.entries[0].0, "y");
    v.move_down();
    v.move_down();
    assert_eq!(v.selected, 1);
    v.move_up();
    v.move_up();
    assert_eq!(v.selected, 0);
    v.close();
    assert!(!v.visible);
    assert!(v.entries.is_empty());
    assert!(v.path.is_none());
}

fn meta(is_dir: bool, is_file: bool, len: u64) -> Option<vhs_86::browser::FsMeta> {
    Some(vhs_86::browser::FsMeta { is_dir, is_symlink: false, is_file, len, modified: None })
}

#[test]
fn disk_nodes_follow_the_metadata_and_depth() {
    assert!(disk_node("/x/gone".to_string(), None, 3, vec![]).is_none());
    let f = disk_node("/x/a.txt".to_string(), meta(false, true, 7), 3, vec![]).unwrap();
    assert!(f.is_file && f.size == 7 && f.name == "a.txt");
    let small = disk_node("/x/s".to_string(), meta(false, true, 1), 0, vec![]).unwrap();
    let big = disk_node("/x/b".to_string(), meta(false, true, 9), 0, vec![]).unwrap();
    assert!(reads_children(&meta(true, false, 4096), 2));
    assert!(!reads_children(&meta(true, false, 4096), 0));
    assert!(!reads_children(&None, 2));
    let d = disk_node("/x".to_string(), meta(true, false, 4096), 2, vec![small, big]).unwrap();
    assert!(!d.is_file && d.size == 0 && d.name == "x");
    assert_eq!(d.children[0].name, "b");
    let leaf = disk_node("/".to_string(), meta(true, false, 4096), 0, vec![]).unwrap();
    assert!(!leaf.is_file && leaf.size == 4096 && leaf.name == "/" && leaf.children.is_empty());
}
