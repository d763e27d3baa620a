use kb_port::procs::{
    check_kill, cmdline_text, kill_outcome, parse_pid, parse_status, process_from_proc, sort_by_pid,
    state_label, user_label, Process,
};

const STATUS: &str = "Name:\tbash\nUmask:\t0022\nState:\tS (sleeping)\nTgid:\t42\nPid:\t42\nPPid:\t1\nUid:\t1000\t1000\t1000\t1000\nVmRSS:\t    3456 kB\n";

#[test]
fn state_labels() {
    assert_eq!(state_label("R"), "Running");
    assert_eq!(state_label("S"), "Sleeping");
    assert_eq!(state_label("D"), "Waiting");
    assert_eq!(state_label("Z"), "Zombie");
    assert_eq!(state_label("T"), "Stopped");
    assert_eq!(state_label("I"), "Idle");
    assert_eq!(state_label("X"), "X");
    assert_eq!(state_label(""), "");
    assert_eq!(state_label("RS"), "RS");
}

#[test]
fn user_labels() {
    assert_eq!(user_label(0), "root");
    assert_eq!(user_label(65534), "nobody");
    assert_eq!(user_label(1000), "1000");
    assert_eq!(user_label(7), "7");
    assert_eq!(user_label(4294967295), "4294967295");
}

#[test]
fn status_fields() {
    let s = parse_status(STATUS);
    assert_eq!(s.name, "bash");
    assert_eq!(s.state, "S");
    assert_eq!(s.ppid, 1);
    assert_eq!(s.uid, 1000);
    assert_eq!(s.vmrss, 3456);
}

#[test]
fn status_defaults_and_odd_values() {
    let s = parse_status("State:\t\nPPid:\tnot a number\nName:\t  spaced name  \r\n");
    assert_eq!(s.state, "?");
    assert_eq!(s.ppid, 0);
    assert_eq!(s.name, "spaced name");
    assert_eq!(s.vmrss, 0);
    assert_eq!(s.uid, 0);
    let empty = parse_status("");
    assert_eq!(empty.name, "");
    assert_eq!(empty.state, "");
}

#[test]
fn status_later_line_wins() {
    let s = parse_status("Name:\ta\nName:\tb\n");
    assert_eq!(s.name, "b");
}

#[test]
fn cmdline_bytes_to_text() {
    assert_eq!(cmdline_text(b"/sbin/init\0splash\0"), "/sbin/init splash");
    assert_eq!(cmdline_text(b""), "");
    assert_eq!(cmdline_text(b"caf\xe9"), "caf\u{e9}");
}

#[test]
fn process_entry() {
    let p = process_from_proc(42, STATUS, Some(b"bash\0-l\0"));
    assert_eq!(p.pid, 42);
    assert_eq!(p.name, "bash");
    assert_eq!(p.state, "Sleeping");
    assert_eq!(p.ppid, 1);
    assert_eq!(p.vmrss, 3456);
    assert_eq!(p.cmdline, "bash -l");
    assert_eq!(p.user, "1000");
}

#[test]
fn kernel_thread_shows_name_in_brackets() {
    let raw = "Name:\tkthreadd\nState:\tI (idle)\nPPid:\t0\nUid:\t0\t0\t0\t0\n";
    let p = process_from_proc(2, raw, Some(b""));
    assert_eq!(p.cmdline, "[kthreadd]");
    assert_eq!(p.user, "root");
    assert_eq!(p.state, "Idle");
    let q = process_from_proc(2, raw, None);
    assert_eq!(q.cmdline, "[kthreadd]");
}

fn entry(pid: u32, name: &str) -> Process {
    Process {
        pid,
        name: name.to_string(),
        state: String::new(),
        ppid: 0,
        vmrss: 0,
        cmdline: String::new(),
        user: String::new(),
    }
}

#[test]
fn sorted_by_pid_and_stable() {
    let mut v = vec![entry(30, "c"), entry(10, "a"), entry(20, "b"), entry(10, "a2")];
    sort_by_pid(&mut v);
    let got: Vec<(u32, String)> = v.iter().map(|p| (p.pid, p.name.clone())).collect();
    assert_eq!(
        got,
        vec![(10, "a".to_string()), (10, "a2".to_string()), (20, "b".to_string()), (30, "c".to_string())]
    );
    let mut empty: Vec<Process> = Vec::new();
    sort_by_pid(&mut empty);
    assert!(empty.is_empty());
}

#[test]
fn kill_guard() {
    assert_eq!(check_kill(0), Err("Refusing to kill PID 0 (system process)".to_string()));
    assert_eq!(check_kill(1), Err("Refusing to kill PID 1 (system process)".to_string()));
    assert_eq!(check_kill(2), Ok(()));
}

#[test]
fn kill_result() {
    assert_eq!(kill_outcome(42, true), Ok(()));
    assert_eq!(
        kill_outcome(42, false),
        Err("kill 42 failed \u{2014} process may have already exited".to_string())
    );
}

#[test]
fn pids_from_proc_names() {
    assert_eq!(parse_pid("123"), Some(123));
    assert_eq!(parse_pid("+7"), Some(7));
    assert_eq!(parse_pid("self"), None);
    assert_eq!(parse_pid(""), None);
    assert_eq!(parse_pid("+"), None);
    assert_eq!(parse_pid("-1"), None);
    assert_eq!(parse_pid("4294967295"), Some(4294967295));
    assert_eq!(parse_pid("4294967296"), None);
}

#[test]
fn every_entry_has_a_command_line() {
    let p = process_from_proc(5, "", None);
    assert_eq!(p.cmdline, "[]");
}
