//! Reading, following and rotating console logs.
use std::collections::BTreeMap;

use ring_runtime::cloud_hypervisor::console_logs::{
    apply_tail, backup_path, collect_lines, is_console_log, is_too_old, next_backup, read_lines,
    rotated_files_in_read_order, rotation_ops, FollowAction, FollowState, RotateOp,
};

/// The files of a log: the live one under 0, backups under their numbers.
type Files = BTreeMap<u32, Vec<u8>>;

/// The contents of the files in the order in which they are read.
fn in_read_order(path: &str, files: &Files) -> Vec<Option<Vec<u8>>> {
    let mut present: Vec<u32> = Vec::new();
    let mut tried: u32 = 0;
    while let Some(idx) = next_backup(tried) {
        if files.contains_key(&idx) {
            present.push(idx);
        }
        tried = idx;
    }
    rotated_files_in_read_order(path, &present)
        .iter()
        .map(|name| {
            let idx = present.iter().copied().find(|i| backup_path(path, *i) == *name);
            files.get(&idx.unwrap_or(0)).cloned()
        })
        .collect()
}

fn read(files: &Files, tail: Option<&str>) -> Vec<String> {
    read_lines(&in_read_order("/run/vm.console.log", files), tail, None, Some(0))
}

fn live(content: &[u8]) -> Files {
    Files::from([(0, content.to_vec())])
}

/// Rotate the files as the operations say.
fn rotate(files: &mut Files, max_bytes: u64, max_backups: u32) {
    let size = files.get(&0).map(|f| f.len() as u64);
    for op in rotation_ops(size, max_bytes, max_backups) {
        match op {
            RotateOp::Remove(idx) => {
                files.remove(&idx);
            }
            RotateOp::Rename(from, to) => {
                if let Some(content) = files.remove(&from) {
                    files.insert(to, content);
                }
            }
        }
    }
}

#[test]
fn read_lines_returns_all_when_no_tail() {
    let lines = read(&live(b"line-1\nline-2\nline-3\n"), None);
    assert_eq!(lines, vec!["line-1", "line-2", "line-3"]);
}

#[test]
fn read_lines_respects_tail_n() {
    let lines = read(&live(b"a\nb\nc\nd\ne\n"), Some("2"));
    assert_eq!(lines, vec!["d", "e"]);
}

#[test]
fn read_lines_tail_all_returns_everything() {
    let lines = read(&live(b"a\nb\nc\n"), Some("all"));
    assert_eq!(lines, vec!["a", "b", "c"]);
}

#[test]
fn read_lines_handles_missing_file() {
    let lines = read(&Files::new(), None);
    assert!(lines.is_empty());
}

#[test]
fn read_lines_lossy_decodes_non_utf8() {
    let lines = read(&live(b"hello\n\xffworld\n"), None);
    assert_eq!(lines.len(), 2);
    assert_eq!(lines[0], "hello");
    assert!(lines[1].contains("world"));
    assert_eq!(lines[1], "\u{fffd}world");
}

#[test]
fn stream_lines_replays_tail_then_follows_appends() {
    let mut content = b"hello\n".to_vec();
    let first = read(&live(&content), None);
    assert_eq!(first, vec!["hello"]);

    let mut follow = FollowState::start(content.len() as u64);
    assert_eq!(follow.observe(content.len() as u64), FollowAction::Wait);
    content.extend_from_slice(b"world\nbye\n");
    assert_eq!(follow.observe(content.len() as u64), FollowAction::ReadFrom(6));
    follow.feed("world\n");
    follow.feed("bye\n");
    follow.advance(content.len() as u64);
    assert_eq!(follow.take_line(), Some("world".to_string()));
    assert_eq!(follow.take_line(), Some("bye".to_string()));
    assert_eq!(follow.take_line(), None);
    assert_eq!(follow.observe(content.len() as u64), FollowAction::Wait);
}

#[test]
fn rotate_no_op_when_under_threshold() {
    let mut files = live(b"small");
    rotate(&mut files, 1024, 3);
    assert!(files.contains_key(&0));
    assert!(!files.contains_key(&1));
}

#[test]
fn rotate_disabled_when_max_bytes_zero() {
    let mut files = live(b"large-enough-payload");
    rotate(&mut files, 0, 3);
    assert!(files.contains_key(&0));
    assert!(!files.contains_key(&1));
}

#[test]
fn rotate_shifts_and_caps_backups() {
    let mut files = live(b"current-payload-over-threshold");
    files.insert(1, b"prev-1".to_vec());
    files.insert(2, b"prev-2".to_vec());
    rotate(&mut files, 8, 2);
    assert!(!files.contains_key(&0));
    assert_eq!(files[&2], b"prev-1");
    assert_eq!(files[&1], b"current-payload-over-threshold");
    assert!(!files.contains_key(&3));
}

#[test]
fn rotate_zero_backups_drops_live() {
    let mut files = live(b"payload-over-threshold");
    rotate(&mut files, 4, 0);
    assert!(!files.contains_key(&0));
    assert!(!files.contains_key(&1));
}

#[test]
fn read_lines_reads_backup_when_live_missing_or_empty() {
    let mut files = Files::from([(1, b"a\nb\nc\nd\ne\n".to_vec())]);
    assert_eq!(read(&files, Some("all")), vec!["a", "b", "c", "d", "e"]);
    files.insert(0, Vec::new());
    assert_eq!(read(&files, Some("all")), vec!["a", "b", "c", "d", "e"]);
}

#[test]
fn read_lines_reads_across_backups_in_chronological_order() {
    let mut files = live(b"new-a\nnew-b\n");
    files.insert(2, b"old-a\nold-b\n".to_vec());
    files.insert(1, b"mid-a\nmid-b\n".to_vec());
    assert_eq!(
        read(&files, None),
        vec!["old-a", "old-b", "mid-a", "mid-b", "new-a", "new-b"]
    );
    assert_eq!(read(&files, Some("3")), vec!["mid-b", "new-a", "new-b"]);
}

#[test]
fn rotate_all_in_dir_targets_only_console_logs() {
    assert!(is_console_log("vm1.console.log"));
    assert!(!is_console_log("vm1.raw"));
    assert!(!is_console_log("vm1.console.log.1"));
    let mut log = live(b"big-enough-payload");
    rotate(&mut log, 4, 1);
    assert!(!log.contains_key(&0));
    assert!(log.contains_key(&1));
}

#[test]
fn rotation_of_a_full_set_keeps_the_newest() {
    let mut files = live(b"0000");
    for idx in 1u32..=3 {
        files.insert(idx, vec![b'0' + idx as u8]);
    }
    files.insert(4, b"untouched".to_vec());
    rotate(&mut files, 3, 3);
    assert_eq!(files.get(&0), None);
    assert_eq!(files[&1], b"0000");
    assert_eq!(files[&2], b"1");
    assert_eq!(files[&3], b"2");
    assert_eq!(files[&4], b"untouched");
}

#[test]
fn rotation_is_strictly_above_the_threshold() {
    assert!(rotation_ops(Some(8), 8, 2).is_empty());
    assert_eq!(
        rotation_ops(Some(9), 8, 2),
        vec![RotateOp::Remove(2), RotateOp::Rename(1, 2), RotateOp::Rename(0, 1)]
    );
    assert!(rotation_ops(None, 8, 2).is_empty());
}

#[test]
fn backups_are_searched_up_to_a_bound() {
    assert_eq!(next_backup(0), Some(1));
    assert_eq!(next_backup(998), Some(999));
    assert_eq!(next_backup(999), None);
    assert_eq!(backup_path("/x/vm.console.log", 12), "/x/vm.console.log.12");
}

#[test]
fn old_logs_are_not_read() {
    assert!(is_too_old(Some(60), Some(61)));
    assert!(!is_too_old(Some(60), Some(60)));
    assert!(!is_too_old(None, Some(1_000_000)));
    assert!(!is_too_old(Some(60), None));
    assert!(is_too_old(Some(60), Some(1 << 31)));
    assert!(is_too_old(Some(i32::MAX), Some(1 << 32)));
    assert!(!is_too_old(Some(0), Some(1)));
    let files = in_read_order("/p", &live(b"a\n"));
    assert!(read_lines(&files, None, Some(60), Some(61)).is_empty());
    assert_eq!(read_lines(&files, None, Some(60), Some(59)), vec!["a"]);
}

#[test]
fn a_tail_that_is_no_number_keeps_everything() {
    let list = vec!["a".to_string(), "b".to_string()];
    assert_eq!(apply_tail(list, Some("x")), vec!["a", "b"]);
    let list = vec!["a".to_string(), "b".to_string()];
    assert_eq!(apply_tail(list, Some("0")), Vec::<String>::new());
    let list = vec!["a".to_string(), "b".to_string()];
    assert_eq!(apply_tail(list, Some("9")), vec!["a", "b"]);
}

#[test]
fn an_unfinished_last_line_is_read() {
    assert_eq!(collect_lines(&vec![Some(b"a\r\nb".to_vec())]), vec!["a", "b"]);
}

#[test]
fn a_truncated_log_is_followed_from_its_beginning() {
    let mut follow = FollowState::start(100);
    assert_eq!(follow.observe(110), FollowAction::ReadFrom(100));
    follow.feed("unfinished");
    follow.advance(110);
    assert_eq!(follow.take_line(), None);
    assert_eq!(follow.observe(5), FollowAction::ReadFrom(0));
    follow.feed("new\n");
    follow.advance(5);
    assert_eq!(follow.take_line(), Some("new".to_string()));
}

#[test]
fn a_line_in_two_pieces_is_put_together() {
    let mut follow = FollowState::start(0);
    follow.feed("hel");
    assert_eq!(follow.take_line(), None);
    follow.feed("lo\n");
    assert_eq!(follow.take_line(), Some("hello".to_string()));
}

#[test]
fn missing_backups_are_skipped() {
    assert_eq!(rotated_files_in_read_order("/l/a.log", &vec![2]), vec!["/l/a.log.2", "/l/a.log"]);
    assert_eq!(
        rotated_files_in_read_order("/l/a.log", &vec![1, 7, 3, 7]),
        vec!["/l/a.log.7", "/l/a.log.3", "/l/a.log.1", "/l/a.log"]
    );
    assert_eq!(rotated_files_in_read_order("/l/a.log", &vec![]), vec!["/l/a.log"]);
    let files = Files::from([(0, b"new\n".to_vec()), (2, b"old\n".to_vec())]);
    assert_eq!(read(&files, None), vec!["old", "new"]);
}

#[test]
fn rotation_into_a_free_slot_keeps_every_line() {
    let mut files = Files::from([
        (0, b"five\nsix\n".to_vec()),
        (1, b"three\nfour\n".to_vec()),
        (2, b"one\ntwo\n".to_vec()),
    ]);
    let before = read(&files, None);
    rotate(&mut files, 4, 3);
    assert!(!files.contains_key(&0));
    assert_eq!(files.len(), 3);
    assert_eq!(read(&files, None), before);
    assert_eq!(before, vec!["one", "two", "three", "four", "five", "six"]);
    let mut sparse = Files::from([(0, b"new\n".to_vec()), (5, b"old\n".to_vec())]);
    rotate(&mut sparse, 1, 2);
    assert_eq!(read(&sparse, None), vec!["old", "new"]);
}
