//! The process list: one entry per process read from `/proc/<pid>/status`
//! and `/proc/<pid>/cmdline`, ordered by pid; and the guard on killing one.
use vstd::prelude::*;
use crate::num;
use crate::num::{decimal_chars, parse_u32, parse_u64};
use crate::text;
use crate::text::{chars_of, first_word_exec, lines_of, slice_of, starts_with_str, string_of, trim_chars};

verus! {

/// One running process.
#[derive(Debug, Clone)]
pub struct Process {
    pub pid: u32,
    pub name: String,
    pub state: String,
    pub ppid: u32,
    pub vmrss: u64,
    pub cmdline: String,
    pub user: String,
}

#[verifier::ext_equal]
pub struct ProcessV {
    pub pid: u32,
    pub name: Seq<char>,
    pub state: Seq<char>,
    pub ppid: u32,
    pub vmrss: u64,
    pub cmdline: Seq<char>,
    pub user: Seq<char>,
}

impl View for Process {
    type V = ProcessV;

    open spec fn view(&self) -> ProcessV {
        ProcessV {
            pid: self.pid,
            name: self.name@,
            state: self.state@,
            ppid: self.ppid,
            vmrss: self.vmrss,
            cmdline: self.cmdline@,
            user: self.user@,
        }
    }
}

pub open spec fn process_views(v: Seq<Process>) -> Seq<ProcessV> {
    v.map_values(|p: Process| p@)
}

impl Process {
    /// A copy of the process entry.
    pub fn copy(&self) -> (res: Process)
        ensures
            res@ == self@,
    {
        Process {
            pid: self.pid,
            name: self.name.clone(),
            state: self.state.clone(),
            ppid: self.ppid,
            vmrss: self.vmrss,
            cmdline: self.cmdline.clone(),
            user: self.user.clone(),
        }
    }
}

// ---------------------------------------------------------------------------
// Labels
// ---------------------------------------------------------------------------

/// The word for a one-letter process state; any other state is kept as it is.
pub open spec fn state_label_spec(s: Seq<char>) -> Seq<char> {
    if s == "R"@ {
        "Running"@
    } else if s == "S"@ {
        "Sleeping"@
    } else if s == "D"@ {
        "Waiting"@
    } else if s == "Z"@ {
        "Zombie"@
    } else if s == "T"@ {
        "Stopped"@
    } else if s == "I"@ {
        "Idle"@
    } else {
        s
    }
}

/// The word for a process state letter.
pub fn state_label(state: &str) -> (res: String)
    ensures
        res@ == state_label_spec(state@),
{
    let v = chars_of(state);
    if text::eq_str(&v, "R") {
        String::from_str("Running")
    } else if text::eq_str(&v, "S") {
        String::from_str("Sleeping")
    } else if text::eq_str(&v, "D") {
        String::from_str("Waiting")
    } else if text::eq_str(&v, "Z") {
        String::from_str("Zombie")
    } else if text::eq_str(&v, "T") {
        String::from_str("Stopped")
    } else if text::eq_str(&v, "I") {
        String::from_str("Idle")
    } else {
        String::from_str(state)
    }
}

/// The owner of a process by uid: `root`, `nobody`, or the uid in decimal.
pub open spec fn user_spec(uid: u32) -> Seq<char> {
    if uid == 0 {
        "root"@
    } else if uid == 65534 {
        "nobody"@
    } else {
        num::decimal(uid as nat)
    }
}

/// The owner label of a uid.
pub fn user_label(uid: u32) -> (res: String)
    ensures
        res@ == user_spec(uid),
{
    if uid == 0 {
        String::from_str("root")
    } else if uid == 65534 {
        String::from_str("nobody")
    } else {
        string_of(&decimal_chars(uid as u64))
    }
}

// ---------------------------------------------------------------------------
// The status file
// ---------------------------------------------------------------------------

/// What the status file says of a process.
#[derive(Debug)]
pub struct Status {
    pub name: String,
    pub state: String,
    pub ppid: u32,
    pub vmrss: u64,
    pub uid: u32,
}

#[verifier::ext_equal]
pub struct StatusV {
    pub name: Seq<char>,
    pub state: Seq<char>,
    pub ppid: u32,
    pub vmrss: u64,
    pub uid: u32,
}

impl View for Status {
    type V = StatusV;

    open spec fn view(&self) -> StatusV {
        StatusV {
            name: self.name@,
            state: self.state@,
            ppid: self.ppid,
            vmrss: self.vmrss,
            uid: self.uid,
        }
    }
}

/// A number read with `str::parse`, or 0 when it cannot be read.
pub open spec fn number_or_zero(s: Seq<char>, max: nat) -> nat {
    match num::parse_unsigned(s, max) {
        Some(n) => n,
        None => 0,
    }
}

/// The first word of `s` read as a number, or 0.
pub open spec fn first_number_or_zero(s: Seq<char>, max: nat) -> nat {
    match text::first_word(s) {
        Some(w) => number_or_zero(w, max),
        None => 0,
    }
}

/// What one status line sets; a later line overrides an earlier one.
pub open spec fn status_step(st: StatusV, line: Seq<char>) -> StatusV {
    if text::starts_with(line, "Name:\t"@) {
        StatusV { name: text::trim(line.skip(6)), ..st }
    } else if text::starts_with(line, "State:\t"@) {
        let v = line.skip(7);
        StatusV {
            state: if v.len() > 0 {
                seq![v[0]]
            } else {
                seq!['?']
            },
            ..st
        }
    } else if text::starts_with(line, "PPid:\t"@) {
        StatusV { ppid: number_or_zero(text::trim(line.skip(6)), u32::MAX as nat) as u32, ..st }
    } else if text::starts_with(line, "VmRSS:\t"@) {
        StatusV { vmrss: first_number_or_zero(line.skip(7), u64::MAX as nat) as u64, ..st }
    } else if text::starts_with(line, "Uid:\t"@) {
        StatusV { uid: first_number_or_zero(line.skip(5), u32::MAX as nat) as u32, ..st }
    } else {
        st
    }
}

/// The status after the given lines, starting from empty text and zeros.
pub open spec fn status_fold(ls: Seq<Seq<char>>) -> StatusV
    decreases ls.len(),
{
    if ls.len() == 0 {
        StatusV { name: Seq::empty(), state: Seq::empty(), ppid: 0, vmrss: 0, uid: 0 }
    } else {
        status_step(status_fold(ls.drop_last()), ls.last())
    }
}

/// What a status file says.
pub open spec fn status_spec(raw: Seq<char>) -> StatusV {
    status_fold(text::lines(raw))
}

/// Reads the fields of a `/proc/<pid>/status` file that the list shows.
pub fn parse_status(status_raw: &str) -> (res: Status)
    ensures
        res@ == status_spec(status_raw@),
{
    let chars = chars_of(status_raw);
    let ls = lines_of(&chars);
    let ghost lv = ls@.map_values(|l: Vec<char>| l@);
    let mut st = Status {
        name: String::new(),
        state: String::new(),
        ppid: 0,
        vmrss: 0,
        uid: 0,
    };
    assert(lv.take(0) =~= Seq::<Seq<char>>::empty());
    for i in 0..ls.len()
        invariant
            lv == ls@.map_values(|l: Vec<char>| l@),
            lv == text::lines(status_raw@),
            st@ == status_fold(lv.take(i as int)),
    {
        let line = &ls[i];
        let n = line.len();
        assert(lv.take(i + 1).drop_last() =~= lv.take(i as int));
        assert(lv.take(i + 1).last() == line@);
        proof {
            reveal_strlit("Name:\t");
            reveal_strlit("State:\t");
            reveal_strlit("PPid:\t");
            reveal_strlit("VmRSS:\t");
            reveal_strlit("Uid:\t");
        }
        if starts_with_str(line, "Name:\t") {
            let val = slice_of(line, 6, n);
            assert(val@ =~= line@.skip(6));
            st.name = string_of(&trim_chars(&val));
        } else if starts_with_str(line, "State:\t") {
            let val = slice_of(line, 7, n);
            assert(val@ =~= line@.skip(7));
            let c = if val.len() > 0 {
                val[0]
            } else {
                '?'
            };
            let mut s = String::new();
            text::push_char(&mut s, c);
            st.state = s;
        } else if starts_with_str(line, "PPid:\t") {
            let val = slice_of(line, 6, n);
            assert(val@ =~= line@.skip(6));
            st.ppid = match parse_u32(&trim_chars(&val)) {
                Some(v) => v,
                None => 0,
            };
        } else if starts_with_str(line, "VmRSS:\t") {
            let val = slice_of(line, 7, n);
            assert(val@ =~= line@.skip(7));
            st.vmrss = match first_word_exec(&val) {
                Some(w) => match parse_u64(&w) {
                    Some(v) => v,
                    None => 0,
                },
                None => 0,
            };
        } else if starts_with_str(line, "Uid:\t") {
            let val = slice_of(line, 5, n);
            assert(val@ =~= line@.skip(5));
            st.uid = match first_word_exec(&val) {
                Some(w) => match parse_u32(&w) {
                    Some(v) => v,
                    None => 0,
                },
                None => 0,
            };
        }
    }
    assert(lv.take(ls.len() as int) =~= lv);
    st
}

// ---------------------------------------------------------------------------
// One process
// ---------------------------------------------------------------------------

/// The character a command-line byte stands for: NUL separates arguments and
/// becomes a space; every other byte is the character of that code.
pub open spec fn byte_char(b: u8) -> char {
    if b == 0 {
        ' '
    } else {
        (b as u32) as char
    }
}

/// The command line as text: bytes as characters, trimmed.
pub open spec fn cmdline_spec(bytes: Seq<u8>) -> Seq<char> {
    text::trim(bytes.map_values(|b: u8| byte_char(b)))
}

/// Turns the bytes of `/proc/<pid>/cmdline` into text.
pub fn cmdline_text(bytes: &[u8]) -> (res: String)
    ensures
        res@ == cmdline_spec(bytes@),
{
    let mut v: Vec<char> = Vec::new();
    for i in 0..bytes.len()
        invariant
            v@ == bytes@.take(i as int).map_values(|b: u8| byte_char(b)),
    {
        let b = bytes[i];
        let c = if b == 0 {
            ' '
        } else {
            b as char
        };
        v.push(c);
        assert(bytes@.take(i + 1).map_values(|b: u8| byte_char(b)) =~= bytes@.take(
            i as int,
        ).map_values(|b: u8| byte_char(b)).push(byte_char(b)));
    }
    assert(bytes@.take(bytes.len() as int) =~= bytes@);
    string_of(&trim_chars(&v))
}

/// The list entry of a process from its pid, its status file and its command
/// line (`None` when that file could not be read). A process with an empty
/// command line (a kernel thread) shows its name in brackets.
pub open spec fn process_spec(pid: u32, status_raw: Seq<char>, cmdline: Option<Seq<u8>>) -> ProcessV {
    let st = status_spec(status_raw);
    let cmd = match cmdline {
        Some(b) => cmdline_spec(b),
        None => Seq::empty(),
    };
    ProcessV {
        pid,
        name: st.name,
        state: state_label_spec(st.state),
        ppid: st.ppid,
        vmrss: st.vmrss,
        cmdline: if cmd.len() == 0 {
            "["@ + st.name + "]"@
        } else {
            cmd
        },
        user: user_spec(st.uid),
    }
}

/// Builds the list entry of one process.
pub fn process_from_proc(pid: u32, status_raw: &str, cmdline: Option<&[u8]>) -> (res: Process)
    ensures
        res@ == process_spec(
            pid,
            status_raw@,
            match cmdline {
                Some(b) => Some(b@),
                None => None,
            },
        ),
{
    let st = parse_status(status_raw);
    let cmd = match cmdline {
        Some(b) => cmdline_text(b),
        None => String::new(),
    };
    let shown = if cmd.as_str().is_empty() {
        let mut s = String::from_str("[");
        s.append(st.name.as_str());
        s.append("]");
        s
    } else {
        cmd
    };
    Process {
        pid,
        name: st.name.clone(),
        state: state_label(st.state.as_str()),
        ppid: st.ppid,
        vmrss: st.vmrss,
        cmdline: shown,
        user: user_label(st.uid),
    }
}

/// Parses the name of a `/proc` entry as a pid; other entries are not processes.
pub fn parse_pid(name: &str) -> (res: Option<u32>)
    ensures
        res matches Some(n) ==> num::parse_unsigned(name@, u32::MAX as nat) == Some(n as nat),
        res is None ==> num::parse_unsigned(name@, u32::MAX as nat) is None,
{
    parse_u32(&chars_of(name))
}


// ---------------------------------------------------------------------------
// Ordering the list
// ---------------------------------------------------------------------------

/// `p` put into `s` after every entry whose pid is not greater than its own,
/// scanning from the end.
pub open spec fn insert_by_pid(s: Seq<ProcessV>, p: ProcessV) -> Seq<ProcessV>
    decreases s.len(),
{
    if s.len() == 0 || s.last().pid <= p.pid {
        s.push(p)
    } else {
        insert_by_pid(s.drop_last(), p).push(s.last())
    }
}

/// The stable sort by pid (entries with equal pids keep their order).
pub open spec fn sort_by_pid_spec(s: Seq<ProcessV>) -> Seq<ProcessV>
    decreases s.len(),
{
    if s.len() == 0 {
        s
    } else {
        insert_by_pid(sort_by_pid_spec(s.drop_last()), s.last())
    }
}

/// Ascending by pid.
pub open spec fn sorted_by_pid(s: Seq<ProcessV>) -> bool {
    forall|i: int, j: int| 0 <= i <= j < s.len() ==> s[i].pid <= s[j].pid
}

proof fn lemma_insert_at(s: Seq<ProcessV>, p: ProcessV, k: int)
    requires
        0 <= k <= s.len(),
        k == 0 || s[k - 1].pid <= p.pid,
        forall|j: int| k <= j < s.len() ==> s[j].pid > p.pid,
    ensures
        insert_by_pid(s, p) == s.insert(k, p),
    decreases s.len(),
{
    if k == s.len() {
        assert(s.insert(k, p) =~= s.push(p));
    } else {
        let d = s.drop_last();
        lemma_insert_at(d, p, k);
        assert(d.insert(k, p).push(s.last()) =~= s.insert(k, p));
    }
}

proof fn lemma_insert_sorted(s: Seq<ProcessV>, p: ProcessV)
    requires
        sorted_by_pid(s),
    ensures
        sorted_by_pid(insert_by_pid(s, p)),
        insert_by_pid(s, p).to_multiset() == s.to_multiset().insert(p),
        insert_by_pid(s, p).len() == s.len() + 1,
        forall|i: int|
            0 <= i < insert_by_pid(s, p).len() ==> (#[trigger] insert_by_pid(s, p)[i] == p
                || s.contains(insert_by_pid(s, p)[i])),
    decreases s.len(),
{
    broadcast use vstd::seq_lib::group_seq_properties;
    broadcast use vstd::multiset::group_multiset_axioms;

    if s.len() == 0 || s.last().pid <= p.pid {
        assert(s.push(p).to_multiset() =~= s.to_multiset().insert(p));
    } else {
        let d = s.drop_last();
        assert(sorted_by_pid(d));
        lemma_insert_sorted(d, p);
        let r = insert_by_pid(d, p);
        assert forall|i: int| 0 <= i < r.len() implies r[i].pid <= s.last().pid by {
            if r[i] == p {
            } else {
                assert(d.contains(r[i]));
                let k = choose|k: int| 0 <= k < d.len() && d[k] == r[i];
                assert(s[k] == d[k]);
            }
        }
        assert(s =~= d.push(s.last()));
        assert(r.push(s.last()).to_multiset() =~= r.to_multiset().insert(s.last()));
        assert(s.to_multiset() =~= d.to_multiset().insert(s.last()));
        assert forall|i: int|
            0 <= i < r.push(s.last()).len() implies (#[trigger] r.push(s.last())[i] == p
            || s.contains(r.push(s.last())[i])) by {
            if i < r.len() {
                if r[i] != p {
                    let k = choose|k: int| 0 <= k < d.len() && d[k] == r[i];
                    assert(s[k] == d[k]);
                }
            } else {
                assert(s[s.len() - 1] == s.last());
            }
        }
    }
}

/// The stable sort by pid is ascending by pid.
pub proof fn lemma_sort_by_pid_sorted(s: Seq<ProcessV>)
    ensures
        sorted_by_pid(sort_by_pid_spec(s)),
        sort_by_pid_spec(s).len() == s.len(),
    decreases s.len(),
{
    if s.len() > 0 {
        lemma_sort_by_pid_sorted(s.drop_last());
        lemma_insert_sorted(sort_by_pid_spec(s.drop_last()), s.last());
    }
}

/// The stable sort by pid keeps every entry, each as often as before.
pub proof fn lemma_sort_by_pid_permutes(s: Seq<ProcessV>)
    ensures
        sort_by_pid_spec(s).to_multiset() == s.to_multiset(),
    decreases s.len(),
{
    broadcast use vstd::seq_lib::group_seq_properties;
    broadcast use vstd::multiset::group_multiset_axioms;

    if s.len() > 0 {
        lemma_sort_by_pid_permutes(s.drop_last());
        lemma_sort_by_pid_sorted(s.drop_last());
        lemma_insert_sorted(sort_by_pid_spec(s.drop_last()), s.last());
        assert(s =~= s.drop_last().push(s.last()));
        assert(s.to_multiset() =~= s.drop_last().to_multiset().insert(s.last()));
    }
}

/// Orders the list by pid, keeping the order of entries with equal pids.
pub fn sort_by_pid(procs: &mut Vec<Process>)
    ensures
        process_views(final(procs)@) == sort_by_pid_spec(process_views(old(procs)@)),
{
    let ghost pv = process_views(procs@);
    let mut out: Vec<Process> = Vec::new();
    assert(pv.take(0) =~= Seq::<ProcessV>::empty());
    for i in 0..procs.len()
        invariant
            pv == process_views(procs@),
            process_views(out@) == sort_by_pid_spec(pv.take(i as int)),
    {
        let p = procs[i].copy();
        proof {
            lemma_sort_by_pid_sorted(pv.take(i as int));
        }
        let mut k = out.len();
        while k > 0 && out[k - 1].pid > p.pid
            invariant
                k <= out@.len(),
                forall|j: int| k <= j < out@.len() ==> out@[j].pid > p.pid,
            decreases k,
        {
            k -= 1;
        }
        let ghost before = process_views(out@);
        proof {
            lemma_insert_at(before, p@, k as int);
            assert(pv.take(i + 1).drop_last() =~= pv.take(i as int));
        }
        out.insert(k, p);
        assert(process_views(out@) =~= before.insert(k as int, p@));
    }
    assert(pv.take(procs.len() as int) =~= pv);
    *procs = out;
}

// ---------------------------------------------------------------------------
// Killing a process
// ---------------------------------------------------------------------------

/// The refusal for pids 0 and 1.
pub open spec fn kill_refusal(pid: u32) -> Seq<char> {
    "Refusing to kill PID "@ + num::decimal(pid as nat) + " (system process)"@
}

/// The error when `kill` ran but did not succeed.
pub open spec fn kill_failure(pid: u32) -> Seq<char> {
    "kill "@ + num::decimal(pid as nat) + " failed \u{2014} process may have already exited"@
}

/// Whether a process may be killed: pids 0 and 1 are refused.
pub fn check_kill(pid: u32) -> (res: Result<(), String>)
    ensures
        res is Ok <==> pid > 1,
        res matches Err(e) ==> e@ == kill_refusal(pid),
{
    if pid <= 1 {
        let mut e = String::from_str("Refusing to kill PID ");
        e.append(string_of(&decimal_chars(pid as u64)).as_str());
        e.append(" (system process)");
        return Err(e);
    }
    Ok(())
}

/// The answer once `kill <pid>` has run with the given success.
pub fn kill_outcome(pid: u32, succeeded: bool) -> (res: Result<(), String>)
    ensures
        res is Ok <==> succeeded,
        res matches Err(e) ==> e@ == kill_failure(pid),
{
    if succeeded {
        return Ok(());
    }
    let mut e = String::from_str("kill ");
    e.append(string_of(&decimal_chars(pid as u64)).as_str());
    e.append(" failed \u{2014} process may have already exited");
    Err(e)
}


// ---------------------------------------------------------------------------
// Laws
// ---------------------------------------------------------------------------

/// Every entry of the list has a command line to show: its own, or its name
/// in brackets.
pub proof fn lemma_cmdline_never_empty(pid: u32, status_raw: Seq<char>, cmdline: Option<Seq<u8>>)
    ensures
        process_spec(pid, status_raw, cmdline).cmdline.len() > 0,
{
    reveal_strlit("[");
}

} // verus!
