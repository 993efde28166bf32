use process_finder::enumerate::{collect_opened, find_process_by_name, Candidate, SnapshotEntry};
use process_finder::process::{get_process_name, OsError, Process, NULL_HANDLE};
use process_finder::text::decode_narrow_name;

fn exe_buffer(name: &str) -> Vec<u8> {
    let mut buf = name.as_bytes().to_vec();
    buf.resize(260, 0);
    buf
}

fn wide_buffer(name: &str) -> Vec<u16> {
    let mut buf: Vec<u16> = name.encode_utf16().collect();
    buf.resize(261, 0);
    buf
}

fn entry(pid: u32, name: &str) -> SnapshotEntry {
    SnapshotEntry { pid, exe_file: exe_buffer(name) }
}

fn pids(found: &[Process]) -> Vec<u32> {
    found.iter().map(|p| p.pid()).collect()
}

fn candidate_pids(cands: &[Candidate]) -> Vec<u32> {
    cands.iter().map(|c| c.pid).collect()
}

#[test]
fn notepad_search_is_newest_first() {
    let snapshot = vec![entry(4321, "notepad.exe"), entry(100, "explorer.exe"), entry(9999, "notepad2.exe")];
    let cands = find_process_by_name(Ok(snapshot), "notepad").unwrap();
    assert_eq!(candidate_pids(&cands), vec![4321, 9999]);
    assert_eq!(cands[0].name, "notepad.exe");
    assert_eq!(cands[1].name, "notepad2.exe");
    let found = collect_opened(cands, vec![0x40, 0x44]);
    assert_eq!(pids(&found), vec![9999, 4321]);
    assert_eq!(Process::find_first_by_name(&Ok(found)), Some(9999));
}

#[test]
fn empty_filter_keeps_every_row() {
    let snapshot = vec![entry(4, "System"), entry(88, "svchost.exe"), entry(12, "")];
    let cands = find_process_by_name(Ok(snapshot), "").unwrap();
    assert_eq!(candidate_pids(&cands), vec![4, 88, 12]);
    assert_eq!(cands[2].name, "");
    let found = collect_opened(cands, vec![1, 2, 3]);
    assert_eq!(pids(&found), vec![12, 88, 4]);
}

#[test]
fn filter_is_case_sensitive_substring() {
    let snapshot = vec![entry(1, "notepad.exe"), entry(2, "NOTEPAD.EXE"), entry(3, "mynotepad"), entry(4, "note")];
    let cands = find_process_by_name(Ok(snapshot), "notepad").unwrap();
    assert_eq!(candidate_pids(&cands), vec![1, 3]);
    let none = find_process_by_name(Ok(vec![entry(1, "notepad.exe")]), "Notepad").unwrap();
    assert!(none.is_empty());
}

#[test]
fn snapshot_error_is_returned() {
    let r = find_process_by_name(Err(OsError { code: 5 }), "notepad");
    assert_eq!(r.err(), Some(OsError { code: 5 }));
}

#[test]
fn failed_opens_are_dropped() {
    let snapshot = vec![entry(10, "a.exe"), entry(20, "a.exe"), entry(30, "a.exe")];
    let cands = find_process_by_name(Ok(snapshot), "a").unwrap();
    let found = collect_opened(cands, vec![7, NULL_HANDLE, 9]);
    assert_eq!(pids(&found), vec![30, 10]);
    assert_eq!(found[0].release_request(), Some(9));
    assert_eq!(found[1].release_request(), Some(7));
}

#[test]
fn find_first_without_match() {
    assert_eq!(Process::find_first_by_name(&Ok(Vec::new())), None);
    assert_eq!(Process::find_first_by_name(&Err(OsError { code: 6 })), None);
}

#[test]
fn open_by_id_keeps_pid() {
    let p = Process::from_pid(0x88, 4321, &wide_buffer("notepad.exe")).unwrap();
    assert_eq!(p.pid(), 4321);
    assert_eq!(p.release_request(), Some(0x88));
    let q = Process::from_pid_and_name(0x90, 77, "calc.exe").unwrap();
    assert_eq!(q.pid(), 77);
}

#[test]
fn open_unknown_pid_gives_none() {
    assert!(Process::from_pid(NULL_HANDLE, 55555, &wide_buffer("")).is_none());
    assert!(Process::from_pid_and_name(NULL_HANDLE, 55555, "x.exe").is_none());
}

#[test]
fn close_twice_succeeds() {
    let mut p = Process::new(0x30, 8, "x.exe");
    assert_eq!(p.close(Ok(())), Ok(()));
    assert_eq!(p.release_request(), None);
    assert_eq!(p.close(Err(OsError { code: 6 })), Ok(()));
    assert_eq!(p.release_request(), None);
}

#[test]
fn close_on_closed_handle_is_noop() {
    let mut p = Process::new(NULL_HANDLE, 8, "x.exe");
    assert_eq!(p.release_request(), None);
    assert_eq!(p.close(Ok(())), Ok(()));
    assert_eq!(p.pid(), 8);
    assert_eq!(p.release_request(), None);
}

#[test]
fn failed_close_can_be_retried() {
    let mut p = Process::new(0x30, 8, "x.exe");
    assert_eq!(p.close(Err(OsError { code: 6 })), Err(OsError { code: 6 }));
    assert_eq!(p.release_request(), Some(0x30));
    assert_eq!(p.close(Ok(())), Ok(()));
    assert_eq!(p.release_request(), None);
}

#[test]
fn narrow_name_stops_at_nul() {
    assert_eq!(decode_narrow_name(b"cmd.exe\0junk\0"), "cmd.exe");
    assert_eq!(decode_narrow_name(b"full"), "full");
    assert_eq!(decode_narrow_name(b"\0abc"), "");
    assert_eq!(decode_narrow_name(&[0x61, 0xff, 0x62, 0]), "a\u{fffd}b");
}

#[test]
fn wide_name_stops_at_nul() {
    assert_eq!(get_process_name(&wide_buffer("notepad.exe")), "notepad.exe");
    assert_eq!(get_process_name(&[0x61, 0xd800, 0x62, 0, 0x63]), "a\u{fffd}b");
    assert_eq!(get_process_name(&[]), "");
}
