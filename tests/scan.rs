use dirscan::report::{final_messages, PartialScanResult};
use dirscan::session::{ScanState, BATCH_SIZE, MAX_DEPTH};
use dirscan::tree::{build_limited_depth_node, to_compact_node, CompactFileNode, FileNode};
use dirscan::walk::{
    enter_directory, finish_directory, unreadable_directory, visit_entry, EntryKind, EntryProbe,
    LinkTarget, Outcome, Visit,
};

fn probe(name: &str, path: &str, identity: u64, kind: EntryKind) -> EntryProbe {
    EntryProbe {
        name: name.to_string(),
        path: path.to_string(),
        canonical: Some(path.to_string()),
        identity: Some(identity),
        kind: Some(kind),
    }
}

fn some(s: &str) -> Option<String> {
    Some(s.to_string())
}

fn node_of(v: Visit) -> FileNode {
    match v {
        Visit::Finished(Outcome::Node(n)) => n,
        _ => panic!("expected a node"),
    }
}

fn file(name: &str, size: u64) -> FileNode {
    FileNode { name: name.to_string(), size, path: format!("/{}", name), children: None, is_directory: false }
}

fn dir(name: &str, children: Vec<FileNode>) -> FileNode {
    let size = children.iter().map(|c| c.size).sum();
    FileNode { name: name.to_string(), size, path: format!("/{}", name), children: Some(children), is_directory: true }
}

#[test]
fn scenario_root_with_one_directory_and_one_file() {
    let root = some("/r");
    let mut st = ScanState::new();
    let (v, _) = visit_entry(&mut st, &root, &probe("r", "/r", 1, EntryKind::Directory), true);
    assert!(matches!(v, Visit::Descend));
    enter_directory(&mut st, &some("/r"));

    let (v, _) = visit_entry(&mut st, &root, &probe("A", "/r/A", 2, EntryKind::Directory), false);
    assert!(matches!(v, Visit::Descend));
    enter_directory(&mut st, &some("/r/A"));
    let (v, _) = visit_entry(&mut st, &root, &probe("a1", "/r/A/a1", 3, EntryKind::File { size: 100 }), false);
    let a1 = node_of(v);
    let (a, batch) = finish_directory(&mut st, "A".to_string(), "/r/A".to_string(), &some("/r/A"), true, vec![Outcome::Node(a1)]);
    assert!(batch.is_none());
    let a = match a {
        Outcome::Node(n) => n,
        _ => panic!("expected a node"),
    };
    assert_eq!(a.size, 100);

    let (v, _) = visit_entry(&mut st, &root, &probe("f1", "/r/f1", 4, EntryKind::File { size: 50 }), false);
    let f1 = node_of(v);
    let (r, _) = finish_directory(&mut st, "r".to_string(), "/r".to_string(), &some("/r"), false, vec![Outcome::Node(a), Outcome::Node(f1)]);
    let r = match r {
        Outcome::Node(n) => n,
        _ => panic!("expected a node"),
    };

    let msgs = final_messages(&mut st, &r, None);
    assert_eq!(msgs.len(), 2);
    // the pending batch holds directory A, then the root-level file f1
    assert_eq!(msgs[0].compact_nodes.len(), 2);
    assert_eq!(msgs[0].compact_nodes[0].name, "A");
    assert_eq!(msgs[0].compact_nodes[1].name, "f1");
    let last: &PartialScanResult = &msgs[1];
    assert!(last.is_complete);
    assert_eq!(last.total_size, 150);
    assert_eq!(last.total_scanned, 3);
    let snap = last.root_node.as_ref().unwrap();
    assert_eq!(snap.size, 150);
    let kids = snap.children.as_ref().unwrap();
    assert_eq!(kids.len(), 2);
    assert_eq!(kids[0].name, "A");
    assert_eq!(kids[0].size, 100);
    let a_kids = kids[0].children.as_ref().unwrap();
    assert_eq!(a_kids.len(), 1);
    assert_eq!(a_kids[0].name, "a1");
    assert_eq!(kids[1].name, "f1");
    assert_eq!(kids[1].size, 50);
    assert!(kids[1].children.is_none());
}

#[test]
fn directory_size_is_sum_of_children() {
    let mut st = ScanState::new();
    let outcomes = vec![
        Outcome::Node(file("x", 10)),
        Outcome::Omitted,
        Outcome::Node(dir("d", vec![file("y", 5), file("z", 7)])),
    ];
    let (d, _) = finish_directory(&mut st, "p".to_string(), "/p".to_string(), &None, false, outcomes);
    match d {
        Outcome::Node(n) => {
            assert_eq!(n.size, 22);
            assert!(n.is_directory);
            assert_eq!(n.children.as_ref().unwrap().len(), 2);
        }
        _ => panic!("expected a node"),
    }
}

#[test]
fn directory_size_saturates() {
    let mut st = ScanState::new();
    let outcomes = vec![Outcome::Node(file("x", u64::MAX)), Outcome::Node(file("y", 3))];
    let (d, _) = finish_directory(&mut st, "p".to_string(), "/p".to_string(), &None, false, outcomes);
    match d {
        Outcome::Node(n) => assert_eq!(n.size, u64::MAX),
        _ => panic!("expected a node"),
    }
}

#[test]
fn cycle_entry_is_empty_leaf() {
    let root = some("/r");
    let mut st = ScanState::new();
    enter_directory(&mut st, &some("/r"));
    enter_directory(&mut st, &some("/r/A"));
    // /r/A/B/back resolves to /r/A, which is being descended into
    let mut p = probe("back", "/r/A/B/back", 9, EntryKind::Directory);
    p.canonical = some("/r/A");
    let (v, _) = visit_entry(&mut st, &root, &p, false);
    let n = node_of(v);
    assert_eq!(n.size, 0);
    assert!(n.children.is_none());
    assert!(!n.is_directory);
    assert_eq!(st.get_stats(), (0, 0));
}

#[test]
fn cyclic_directory_link_is_not_followed() {
    let root = some("/r");
    let mut st = ScanState::new();
    enter_directory(&mut st, &some("/r/A"));
    let mut p = probe("link", "/r/A/link", 5, EntryKind::Symlink {
        target: LinkTarget::Directory { path: "/r/A".to_string(), canonical: some("/r/A") },
    });
    p.canonical = some("/r/A/link");
    let (v, _) = visit_entry(&mut st, &root, &p, false);
    let n = node_of(v);
    assert_eq!(n.size, 0);
    assert!(n.children.is_none());
}

#[test]
fn directory_link_is_followed() {
    let root = some("/r");
    let mut st = ScanState::new();
    let mut p = probe("link", "/r/link", 5, EntryKind::Symlink {
        target: LinkTarget::Directory { path: "/r/B".to_string(), canonical: some("/r/B") },
    });
    p.canonical = some("/r/link");
    let (v, _) = visit_entry(&mut st, &root, &p, false);
    match v {
        Visit::Follow(t) => assert_eq!(t, "/r/B"),
        _ => panic!("expected to follow the link"),
    }
}

#[test]
fn file_link_counts_target_size_and_broken_link_counts_nothing() {
    let root = some("/r");
    let mut st = ScanState::new();
    let p = probe("l1", "/r/l1", 5, EntryKind::Symlink { target: LinkTarget::File { size: 4096, identity: Some(77) } });
    let n = node_of(visit_entry(&mut st, &root, &p, false).0);
    assert_eq!(n.size, 4096);
    let p = probe("l2", "/r/l2", 6, EntryKind::Symlink { target: LinkTarget::Unresolved });
    let n = node_of(visit_entry(&mut st, &root, &p, false).0);
    assert_eq!(n.size, 0);
    assert_eq!(st.get_stats(), (2, 4096));
}

#[test]
fn hard_links_counted_once() {
    let root = some("/r");
    let mut st = ScanState::new();
    let n1 = node_of(visit_entry(&mut st, &root, &probe("h1", "/r/h1", 42, EntryKind::File { size: 100 }), false).0);
    let n2 = node_of(visit_entry(&mut st, &root, &probe("h2", "/r/h2", 42, EntryKind::File { size: 100 }), false).0);
    assert_eq!(n1.size, 100);
    assert_eq!(n2.size, 0);
    assert_eq!(st.get_stats(), (1, 100));
}

#[test]
fn entry_outside_root_is_empty_leaf() {
    let root = some("/r");
    let mut st = ScanState::new();
    let mut p = probe("up", "/r/up", 3, EntryKind::File { size: 10 });
    p.canonical = some("/rx/file");
    let n = node_of(visit_entry(&mut st, &root, &p, false).0);
    assert_eq!(n.size, 0);
    let mut p = probe("in", "/r/in", 4, EntryKind::File { size: 10 });
    p.canonical = some("/r/in");
    let n = node_of(visit_entry(&mut st, &root, &p, false).0);
    assert_eq!(n.size, 10);
}

#[test]
fn unreadable_entry_is_omitted() {
    let root = some("/r");
    let mut st = ScanState::new();
    let mut p = probe("x", "/r/x", 3, EntryKind::Directory);
    p.kind = None;
    let (v, _) = visit_entry(&mut st, &root, &p, false);
    assert!(matches!(v, Visit::Finished(Outcome::Omitted)));
    let d = unreadable_directory("d".to_string(), "/r/d".to_string());
    assert!(d.is_directory);
    assert_eq!(d.size, 0);
    assert_eq!(d.children.unwrap().len(), 0);
}

#[test]
fn cancelled_scan_sends_no_completion() {
    let root = some("/r");
    let mut st = ScanState::new();
    let (v, _) = visit_entry(&mut st, &root, &probe("r", "/r", 1, EntryKind::Directory), true);
    assert!(matches!(v, Visit::Descend));
    st.cancel();
    assert!(st.is_cancelled());
    let (v, hb) = visit_entry(&mut st, &root, &probe("a", "/r/a", 2, EntryKind::File { size: 1 }), false);
    assert!(matches!(v, Visit::Finished(Outcome::Cancelled)));
    assert!(hb.is_none());
    let (d, _) = finish_directory(&mut st, "r".to_string(), "/r".to_string(), &some("/r"), false, vec![Outcome::Node(file("b", 3)), Outcome::Cancelled]);
    assert!(matches!(d, Outcome::Cancelled));
    let msgs = final_messages(&mut st, &dir("r", vec![]), None);
    assert!(msgs.is_empty());
}

#[test]
fn heartbeat_every_tenth_visit() {
    let root = some("/r");
    let mut st = ScanState::new();
    let mut beats = Vec::new();
    for i in 0..25u64 {
        let path = format!("/r/f{}", i);
        let (_, hb) = visit_entry(&mut st, &root, &probe("f", &path, i, EntryKind::File { size: 1 }), false);
        if let Some(m) = hb {
            beats.push((i, m.current_path.unwrap(), m.total_scanned));
        }
    }
    assert_eq!(beats.len(), 2);
    assert_eq!(beats[0].0, 9);
    assert_eq!(beats[0].1, "/r/f9");
    assert_eq!(beats[0].2, 9);
    assert_eq!(beats[1].0, 19);
}

#[test]
fn batch_sent_when_buffer_fills() {
    let mut st = ScanState::new();
    for _ in 0..BATCH_SIZE - 1 {
        let c = CompactFileNode { name: "x".to_string(), size: 1, children: None, is_directory: false };
        assert!(!st.add_compact_to_buffer(c));
    }
    let mut outcomes = Vec::new();
    outcomes.push(Outcome::Node(file("a", 5)));
    let (_, batch) = finish_directory(&mut st, "d".to_string(), "/r/d".to_string(), &None, true, outcomes);
    let batch = batch.expect("a full batch is sent");
    assert_eq!(batch.compact_nodes.len(), BATCH_SIZE);
    assert_eq!(batch.compact_nodes[BATCH_SIZE - 1].name, "d");
    assert!(st.clear_compact_buffer().is_empty());
}

#[test]
fn snapshot_cuts_deep_tree_but_keeps_sizes() {
    let mut n = file("leaf", 7);
    for i in 0..(MAX_DEPTH + 5) {
        n = dir(&format!("d{}", i), vec![n]);
    }
    let snap = build_limited_depth_node(&n, MAX_DEPTH);
    assert_eq!(snap.size, 7);
    let mut cur = &snap;
    for _ in 0..MAX_DEPTH {
        let kids = cur.children.as_ref().unwrap();
        assert_eq!(kids.len(), 1);
        cur = &kids[0];
    }
    assert_eq!(cur.size, 7);
    assert!(cur.is_directory);
    assert_eq!(cur.children.as_ref().unwrap().len(), 0);
}

#[test]
fn snapshot_of_file_at_cut_has_no_children() {
    let n = dir("d", vec![file("f", 3), dir("e", vec![file("g", 4)])]);
    let snap = build_limited_depth_node(&n, 1);
    let kids = snap.children.as_ref().unwrap();
    assert!(kids[0].children.is_none());
    assert_eq!(kids[1].children.as_ref().unwrap().len(), 0);
    assert_eq!(kids[1].size, 4);
    assert_eq!(snap.size, 7);
}

#[test]
fn compact_form_drops_paths() {
    let n = dir("d", vec![file("f", 3)]);
    let c = to_compact_node(&n);
    assert_eq!(c.name, "d");
    assert_eq!(c.size, 3);
    assert!(c.is_directory);
    let kids = c.children.unwrap();
    assert_eq!(kids[0].name, "f");
    assert!(kids[0].children.is_none());
}

#[test]
fn recursion_stack_push_and_pop() {
    let mut st = ScanState::new();
    assert!(st.push_to_recursion_stack("/a"));
    assert!(!st.push_to_recursion_stack("/a"));
    assert!(st.is_in_recursion_stack("/a"));
    st.pop_from_recursion_stack("/a");
    assert!(!st.is_in_recursion_stack("/a"));
    assert!(st.mark_visited_inode(3));
    assert!(!st.mark_visited_inode(3));
    assert!(st.is_visited_inode(3));
}

#[test]
fn link_to_already_counted_file_adds_nothing() {
    let root = some("/r");
    let mut st = ScanState::new();
    let n = node_of(visit_entry(&mut st, &root, &probe("f", "/r/f", 50, EntryKind::File { size: 300 }), false).0);
    assert_eq!(n.size, 300);
    let p = probe("l", "/r/l", 51, EntryKind::Symlink { target: LinkTarget::File { size: 300, identity: Some(50) } });
    let n = node_of(visit_entry(&mut st, &root, &p, false).0);
    assert_eq!(n.size, 0);
    assert_eq!(st.get_stats(), (2, 300));
}

#[test]
fn file_reached_through_link_first_is_not_counted_again() {
    let root = some("/r");
    let mut st = ScanState::new();
    let p = probe("l", "/r/l", 51, EntryKind::Symlink { target: LinkTarget::File { size: 300, identity: Some(50) } });
    assert_eq!(node_of(visit_entry(&mut st, &root, &p, false).0).size, 300);
    let n = node_of(visit_entry(&mut st, &root, &probe("f", "/r/f", 50, EntryKind::File { size: 300 }), false).0);
    assert_eq!(n.size, 0);
    assert_eq!(st.get_stats(), (1, 300));
}
