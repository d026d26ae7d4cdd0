use faulx::{check_entry, list_pids_by_comm, ProcEntry};

fn entry(name: &[u8], comm: Option<&[u8]>) -> ProcEntry {
    ProcEntry { name: name.to_vec(), comm: comm.map(|c| c.to_vec()) }
}

#[test]
fn test_list_pids_by_comm_no_match() {
    let entries = vec![entry(b"789", Some(b"sshd\n"))];
    let result: Vec<i32> = entries
        .iter()
        .filter_map(|e| check_entry(e, b"bash"))
        .collect();
    assert!(result.is_empty());
}

#[test]
fn test_discover_single_match() {
    let entries = vec![entry(b"1234", Some(b"myprocess\n"))];
    assert_eq!(list_pids_by_comm(&entries, "myprocess"), vec![1234]);
    assert_eq!(list_pids_by_comm(&entries, "other"), Vec::<i32>::new());
}

#[test]
fn test_discover_skips_non_numeric_entry() {
    let entries = vec![
        entry(b"meta", Some(b"myprocess\n")),
        entry(b"1234", Some(b"myprocess\n")),
    ];
    assert_eq!(list_pids_by_comm(&entries, "myprocess"), vec![1234]);
}

#[test]
fn test_discover_skips_unreadable_record() {
    let entries = vec![
        entry(b"4321", None),
        entry(b"1234", Some(b"myprocess\n")),
    ];
    assert_eq!(list_pids_by_comm(&entries, "myprocess"), vec![1234]);
}

#[test]
fn test_discover_idempotent() {
    let entries = vec![
        entry(b"17", Some(b"bash\n")),
        entry(b"meta", Some(b"bash\n")),
        entry(b"42", Some(b"bash")),
        entry(b"99", Some(b"zsh\n")),
    ];
    let first = list_pids_by_comm(&entries, "bash");
    let second = list_pids_by_comm(&entries, "bash");
    assert_eq!(first, second);
    assert_eq!(first, vec![17, 42]);
}

#[test]
fn test_discover_matches_in_snapshot_order() {
    let entries = vec![
        entry(b"300", Some(b"worker\n")),
        entry(b"2", Some(b"worker\n")),
        entry(b"77", Some(b"other\n")),
        entry(b"10", Some(b"worker")),
    ];
    assert_eq!(list_pids_by_comm(&entries, "worker"), vec![300, 2, 10]);
}

#[test]
fn test_check_entry_strips_one_trailing_newline() {
    assert_eq!(check_entry(&entry(b"5", Some(b"cat\n")), b"cat"), Some(5));
    assert_eq!(check_entry(&entry(b"5", Some(b"cat")), b"cat"), Some(5));
    assert_eq!(check_entry(&entry(b"5", Some(b"cat\n\n")), b"cat"), None);
    assert_eq!(check_entry(&entry(b"5", Some(b"cat\n")), b"cat\n"), None);
}

#[test]
fn test_check_entry_exact_match_only() {
    assert_eq!(check_entry(&entry(b"8", Some(b"catalog\n")), b"cat"), None);
    assert_eq!(check_entry(&entry(b"8", Some(b"cat\n")), b"catalog"), None);
    assert_eq!(check_entry(&entry(b"8", Some(b"Cat\n")), b"cat"), None);
}

#[test]
fn test_check_entry_rejects_zero_pid() {
    assert_eq!(check_entry(&entry(b"0", Some(b"init\n")), b"init"), None);
}
