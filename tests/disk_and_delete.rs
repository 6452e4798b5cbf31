use dirscan::delete::{total_size, DeletionRun};
use dirscan::disk::{is_root_directory, resolve_disk_info, resolve_disk_info_pooled, DiskEntry};
use dirscan::report::initial_message;
use dirscan::text::normalize_separators;

fn disk(m: &str, total: u64, available: u64) -> DiskEntry {
    DiskEntry { mount_point: m.to_string(), total_space: total, available_space: available }
}

#[test]
fn root_directory_shapes() {
    assert!(is_root_directory("/"));
    assert!(is_root_directory("\\"));
    assert!(is_root_directory("C:\\"));
    assert!(is_root_directory("/Volumes/Backup"));
    assert!(is_root_directory("/mnt/disk"));
    assert!(is_root_directory("/media/user/disk"));
    assert!(!is_root_directory("/Volumes/"));
    assert!(!is_root_directory("/Volumes/Backup/photos"));
    assert!(!is_root_directory("/mnt/disk/x"));
    assert!(!is_root_directory("/media/user"));
    assert!(!is_root_directory("/media//disk"));
    assert!(!is_root_directory("/home/user"));
    assert!(!is_root_directory("C:\\Users"));
}

#[test]
fn disk_info_picks_volume_holding_the_path() {
    let disks = vec![disk("/boot", 10, 5), disk("/", 1000, 400), disk("/home", 50, 10)];
    let info = resolve_disk_info("/home/me", &disks).unwrap();
    assert_eq!(info.total_space, 50);
    assert_eq!(info.available_space, 10);
    assert_eq!(info.used_space, 40);
    let info = resolve_disk_info("/var/log", &disks).unwrap();
    assert_eq!(info.total_space, 1000);
    assert_eq!(info.used_space, 600);
    assert!(resolve_disk_info("C:\\", &disks).is_none());
}

#[test]
fn disk_info_mount_listed_after_root_wins() {
    let disks = vec![disk("/", 1000, 400), disk("/mnt/x", 300, 100)];
    let info = resolve_disk_info("/mnt/x", &disks).unwrap();
    assert_eq!(info.total_space, 300);
    assert_eq!(info.used_space, 200);
}

#[test]
fn disk_mount_matches_whole_components_only() {
    let disks = vec![disk("/", 1000, 400), disk("/mnt/disk", 300, 100)];
    let info = resolve_disk_info("/mnt/disk2", &disks).unwrap();
    assert_eq!(info.total_space, 1000);
    let info = resolve_disk_info("/mnt/disk/sub", &disks).unwrap();
    assert_eq!(info.total_space, 300);
    let info = resolve_disk_info_pooled("/mnt/disk2", &disks).unwrap();
    assert_eq!(info.total_space, 1000);
    let drives = vec![disk("C:\\", 500, 100), disk("D:\\", 80, 20)];
    assert_eq!(resolve_disk_info("D:\\games", &drives).unwrap().total_space, 80);
    assert!(resolve_disk_info("E:\\", &drives).is_none());
}

#[test]
fn disk_info_used_never_negative() {
    let disks = vec![disk("/", 10, 20)];
    assert_eq!(resolve_disk_info("/", &disks).unwrap().used_space, 0);
}

#[test]
fn disk_info_pooled_picks_longest_mount() {
    let disks = vec![disk("/", 1000, 400), disk("/Volumes/Ext", 200, 50)];
    let info = resolve_disk_info_pooled("/Volumes/Ext", &disks).unwrap();
    assert_eq!(info.total_space, 200);
    assert_eq!(info.used_space, 150);
}

#[test]
fn disk_info_pooled_sums_system_volumes_for_root() {
    let disks = vec![
        disk("/", 1000, 400),
        disk("/System/Volumes/Data", 1000, 300),
        disk("/Volumes/Ext", 200, 50),
        disk("/System/Volumes/VM", 1000, 990),
    ];
    let info = resolve_disk_info_pooled("/", &disks).unwrap();
    assert_eq!(info.used_space, 600 + 700 + 10);
    assert_eq!(info.total_space, 1000);
    assert_eq!(info.available_space, 990);
}

#[test]
fn initial_message_carries_disk_info() {
    let disks = vec![disk("/", 1000, 400)];
    let info = resolve_disk_info("/", &disks).unwrap();
    let m = initial_message("/", info);
    assert!(!m.is_complete);
    assert_eq!(m.disk_info.unwrap().used_space, 600);
    assert_eq!(m.current_path.unwrap(), "/");
}

#[test]
fn separators_are_normalized() {
    assert_eq!(normalize_separators("C:\\Users\\me\\a.txt"), "C:/Users/me/a.txt");
    assert_eq!(normalize_separators("/tmp/x"), "/tmp/x");
}

#[test]
fn deletion_with_second_item_failing() {
    let paths = ["/t/a", "/t/b", "/t/c"];
    let sizes = [100u64, 200, 300];
    let removed = [true, false, true];
    let mut run = DeletionRun::new(paths.len());
    let mut started = Vec::new();
    for i in 0..paths.len() {
        started.push(run.begin_item(paths[i]));
        run.record(removed[i], sizes[i]);
    }
    assert!(run.is_done());
    let done = run.finish();
    assert_eq!(started.len(), 3);
    for (i, m) in started.iter().enumerate() {
        assert_eq!(m.current, i + 1);
        assert_eq!(m.total, 3);
        assert_eq!(m.current_path, paths[i]);
        assert!(!m.completed);
        assert!(m.deleted_size.is_none());
    }
    assert!(done.completed);
    assert!(!done.success);
    assert_eq!(done.current, 3);
    assert_eq!(done.deleted_count, Some(2));
    assert_eq!(done.deleted_size, Some(400));
    assert_eq!(done.failed_count, Some(1));
}

#[test]
fn deletion_all_succeed() {
    let mut run = DeletionRun::new(2);
    run.record(true, 1);
    run.record(true, 2);
    let done = run.finish();
    assert!(done.success);
    assert_eq!(done.deleted_size, Some(3));
}

#[test]
fn deletion_of_empty_list() {
    let run = DeletionRun::new(0);
    assert!(run.is_done());
    let done = run.finish();
    assert!(done.success);
    assert_eq!(done.deleted_count, Some(0));
}

#[test]
fn directory_total_size_sums_and_saturates() {
    assert_eq!(total_size(&vec![4096, 8192, 0]), 12288);
    assert_eq!(total_size(&vec![]), 0);
    assert_eq!(total_size(&vec![u64::MAX, 1]), u64::MAX);
}
