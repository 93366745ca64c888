//! Process records and the supervisor's ordering of signals over a
//! process-table snapshot.
use vstd::prelude::*;

use crate::text::str_eq;

verus! {

/// Scheduler state of a process.
#[derive(Debug)]
pub enum State {
    Running,
    Sleeping,
    /// Uninterruptible wait, typically on I/O.
    Delay,
    Zombie,
    /// Stopped by a signal or traced.
    Traced,
    Unknown(String),
}

/// The state named by a state letter of the process table.
pub open spec fn state_of(s: Seq<char>) -> State {
    if s == seq!['R'] {
        State::Running
    } else if s == seq!['S'] {
        State::Sleeping
    } else if s == seq!['D'] {
        State::Delay
    } else if s == seq!['Z'] {
        State::Zombie
    } else if s == seq!['T'] {
        State::Traced
    } else {
        State::Unknown(arbitrary())
    }
}

/// Whether `st` is what the text `w` reads as: the state its letter names,
/// or `Unknown` holding the text itself.
pub open spec fn state_is(st: State, w: Seq<char>) -> bool {
    if w == seq!['R'] || w == seq!['S'] || w == seq!['D'] || w == seq!['Z'] || w == seq!['T'] {
        st == state_of(w)
    } else {
        st is Unknown && st->Unknown_0@ == w
    }
}

impl State {
    /// Reads a state letter; any other text is kept as `Unknown`.
    pub fn parse(s: &str) -> (r: State)
        ensures
            state_is(r, s@),
    {
        proof {
            reveal_strlit("R");
            assert("R"@ =~= seq!['R']);
            reveal_strlit("S");
            assert("S"@ =~= seq!['S']);
            reveal_strlit("D");
            assert("D"@ =~= seq!['D']);
            reveal_strlit("Z");
            assert("Z"@ =~= seq!['Z']);
            reveal_strlit("T");
            assert("T"@ =~= seq!['T']);
        }
        if str_eq(s, "R") {
            State::Running
        } else if str_eq(s, "S") {
            State::Sleeping
        } else if str_eq(s, "D") {
            State::Delay
        } else if str_eq(s, "Z") {
            State::Zombie
        } else if str_eq(s, "T") {
            State::Traced
        } else {
            State::Unknown(s.to_owned())
        }
    }

    /// Running, sleeping or waiting on I/O.
    pub open spec fn alive(&self) -> bool {
        self is Running || self is Sleeping || self is Delay
    }
}

/// One line of a process's status record, field by field.
#[derive(Debug)]
pub struct Stat {
    pub process_id: usize,
    pub filename: String,
    pub state: State,
    pub parent_process_id: usize,
    pub process_group: usize,
    pub session_id: usize,
    pub tty_number: usize,
    pub tty_process_group: isize,
    pub flags: usize,
    pub minor_faults: usize,
    pub minor_faults_children: usize,
    pub major_faults: usize,
    pub major_faults_children: usize,
    pub user_time: usize,
    pub kernel_time: usize,
    pub user_time_children: usize,
    pub kernel_time_children: usize,
    pub priority: isize,
    pub nice: isize,
    pub num_threads: usize,
    pub it_real_value: (),
    pub start_time: usize,
    pub virtual_memory_size: usize,
    pub resident_set_memory_size: usize,
    pub resident_set_memory_limit: usize,
    pub start_code: usize,
    pub end_code: usize,
    pub start_stack: usize,
    pub esp: usize,
    pub eip: usize,
    pub pending_signals: usize,
    pub blocked_signals: usize,
    pub ignored_signals: usize,
    pub caught_signals: usize,
    pub placeholder_0: (),
    pub placeholder_1: (),
    pub placeholder_2: (),
    pub exit_signal: usize,
    pub task_cpu: usize,
    pub realtime_priority: usize,
    pub scheduling_policy: usize,
    pub block_io_ticks: usize,
    pub guest_time: usize,
    pub guest_time_children: usize,
    pub start_data: usize,
    pub end_data: usize,
    pub start_brk: usize,
    pub arg_start: usize,
    pub arg_end: usize,
    pub env_start: usize,
    pub env_end: usize,
    pub exit_code: usize,
}

impl Stat {
    /// A record with the given identity fields and every counter at zero.
    pub fn basic(
        process_id: usize,
        filename: String,
        state: State,
        parent_process_id: usize,
        session_id: usize,
    ) -> (r: Stat)
        ensures
            r.process_id == process_id,
            r.filename == filename,
            r.state == state,
            r.parent_process_id == parent_process_id,
            r.session_id == session_id,
    {
        Stat {
            process_id,
            filename,
            state,
            parent_process_id,
            process_group: 0,
            session_id,
            tty_number: 0,
            tty_process_group: 0,
            flags: 0,
            minor_faults: 0,
            minor_faults_children: 0,
            major_faults: 0,
            major_faults_children: 0,
            user_time: 0,
            kernel_time: 0,
            user_time_children: 0,
            kernel_time_children: 0,
            priority: 0,
            nice: 0,
            num_threads: 0,
            it_real_value: (),
            start_time: 0,
            virtual_memory_size: 0,
            resident_set_memory_size: 0,
            resident_set_memory_limit: 0,
            start_code: 0,
            end_code: 0,
            start_stack: 0,
            esp: 0,
            eip: 0,
            pending_signals: 0,
            blocked_signals: 0,
            ignored_signals: 0,
            caught_signals: 0,
            placeholder_0: (),
            placeholder_1: (),
            placeholder_2: (),
            exit_signal: 0,
            task_cpu: 0,
            realtime_priority: 0,
            scheduling_policy: 0,
            block_io_ticks: 0,
            guest_time: 0,
            guest_time_children: 0,
            start_data: 0,
            end_data: 0,
            start_brk: 0,
            arg_start: 0,
            arg_end: 0,
            env_start: 0,
            env_end: 0,
            exit_code: 0,
        }
    }
}

/// A process: its status record and its command line.
#[derive(Debug)]
pub struct Proc {
    pub stat: Stat,
    pub cmdline: String,
}

/// Whether the process is running, sleeping or waiting on I/O.
pub fn is_running(proc: &Proc) -> (r: bool)
    ensures
        r == proc.stat.state.alive(),
{
    match &proc.stat.state {
        State::Running | State::Sleeping | State::Delay => true,
        _ => false,
    }
}

/// Whether the process is stopped or traced.
pub fn is_stopped(proc: &Proc) -> (r: bool)
    ensures
        r == proc.stat.state is Traced,
{
    match &proc.stat.state {
        State::Traced => true,
        _ => false,
    }
}

/// Whether the process belongs to session `session_id`.
pub fn has_session(proc: &Proc, session_id: usize) -> (r: bool)
    ensures
        r == (proc.stat.session_id == session_id),
{
    proc.stat.session_id == session_id
}

/// Whether `pid` is the parent of the process.
pub fn is_child_process_of(proc: &Proc, pid: usize) -> (r: bool)
    ensures
        r == (proc.stat.parent_process_id == pid),
{
    proc.stat.parent_process_id == pid
}

/// Whether the process is neither the idle listener nor the shell itself.
pub fn not_system_process(proc: &Proc) -> (r: bool)
    ensures
        r == (proc.stat.filename@ != "wave"@ && proc.stat.filename@ != "tray"@),
{
    !str_eq(proc.stat.filename.as_str(), "wave") && !str_eq(proc.stat.filename.as_str(), "tray")
}

/// The index of the first process whose command line is the system
/// document reader's.
pub fn system_xochitl_process(procs: &Vec<Proc>) -> (r: Option<usize>)
    ensures
        r is None ==> forall|i: int| 0 <= i < procs@.len() ==> procs@[i].cmdline@
            != "/usr/bin/xochitl --system"@,
        r is Some ==> r->0 < procs@.len() && procs@[r->0 as int].cmdline@
            == "/usr/bin/xochitl --system"@ && forall|i: int| 0 <= i < r->0 ==> procs@[i].cmdline@
            != "/usr/bin/xochitl --system"@,
{
    let n = procs.len();
    let mut i: usize = 0;
    while i < n
        invariant
            n == procs@.len(),
            i <= n,
            forall|j: int| 0 <= j < i ==> procs@[j].cmdline@ != "/usr/bin/xochitl --system"@,
        decreases n - i,
    {
        if str_eq(procs[i].cmdline.as_str(), "/usr/bin/xochitl --system") {
            return Some(i);
        }
        i = i + 1;
    }
    None
}

/// Whether record `j` of the snapshot is a child of record `p`.
pub open spec fn child_of(procs: Seq<Proc>, j: int, p: int) -> bool {
    procs[j].stat.parent_process_id == procs[p].stat.process_id
}

/// Record `idx` followed by the subtrees of its children, each child's
/// subtree whole and in snapshot order; `fuel` bounds the depth.
pub open spec fn pre_order(procs: Seq<Proc>, idx: int, fuel: nat) -> Seq<usize>
    decreases fuel, 0nat,
{
    seq![idx as usize] + if fuel == 0 {
        Seq::empty()
    } else {
        pre_children(procs, idx, 0, (fuel - 1) as nat)
    }
}

/// The pre-order subtrees of the children of `parent` found from index `j` on.
pub open spec fn pre_children(procs: Seq<Proc>, parent: int, j: int, fuel: nat) -> Seq<usize>
    decreases fuel, (if 0 <= j < procs.len() {
        procs.len() - j + 1
    } else {
        0
    }) as nat,
{
    if 0 <= j < procs.len() {
        (if child_of(procs, j, parent) {
            pre_order(procs, j, fuel)
        } else {
            Seq::empty()
        }) + pre_children(procs, parent, j + 1, fuel)
    } else {
        Seq::empty()
    }
}

/// The subtrees of the children of record `idx`, each whole and in
/// snapshot order, followed by `idx` itself; `fuel` bounds the depth.
pub open spec fn post_order(procs: Seq<Proc>, idx: int, fuel: nat) -> Seq<usize>
    decreases fuel, 0nat,
{
    (if fuel == 0 {
        Seq::empty()
    } else {
        post_children(procs, idx, 0, (fuel - 1) as nat)
    }) + seq![idx as usize]
}

/// The post-order subtrees of the children of `parent` found from index `j` on.
pub open spec fn post_children(procs: Seq<Proc>, parent: int, j: int, fuel: nat) -> Seq<usize>
    decreases fuel, (if 0 <= j < procs.len() {
        procs.len() - j + 1
    } else {
        0
    }) as nat,
{
    if 0 <= j < procs.len() {
        (if child_of(procs, j, parent) {
            post_order(procs, j, fuel)
        } else {
            Seq::empty()
        }) + post_children(procs, parent, j + 1, fuel)
    } else {
        Seq::empty()
    }
}

fn push_pre_order(procs: &Vec<Proc>, idx: usize, fuel: usize, out: &mut Vec<usize>)
    requires
        idx < procs@.len(),
    ensures
        final(out)@ == old(out)@ + pre_order(procs@, idx as int, fuel as nat),
    decreases fuel,
{
    let ghost start = out@;
    out.push(idx);
    if fuel == 0 {
        assert(out@ =~= start + pre_order(procs@, idx as int, 0));
        return;
    }
    let n = procs.len();
    let ghost base = out@;
    let ghost f = (fuel - 1) as nat;
    let mut j: usize = 0;
    assert(out@ + pre_children(procs@, idx as int, 0, f) =~= base + pre_children(
        procs@,
        idx as int,
        0,
        f,
    ));
    while j < n
        invariant
            n == procs@.len(),
            idx < n,
            j <= n,
            f == fuel - 1,
            out@ + pre_children(procs@, idx as int, j as int, f) == base + pre_children(
                procs@,
                idx as int,
                0,
                f,
            ),
        decreases n - j,
    {
        let ghost before = out@;
        if procs[j].stat.parent_process_id == procs[idx].stat.process_id {
            push_pre_order(procs, j, fuel - 1, out);
        }
        assert(out@ + pre_children(procs@, idx as int, j + 1, f) =~= before + pre_children(
            procs@,
            idx as int,
            j as int,
            f,
        ));
        j = j + 1;
    }
    assert(out@ =~= start + pre_order(procs@, idx as int, fuel as nat));
}

fn push_post_order(procs: &Vec<Proc>, idx: usize, fuel: usize, out: &mut Vec<usize>)
    requires
        idx < procs@.len(),
    ensures
        final(out)@ == old(out)@ + post_order(procs@, idx as int, fuel as nat),
    decreases fuel,
{
    let ghost start = out@;
    if fuel > 0 {
        let n = procs.len();
        let ghost f = (fuel - 1) as nat;
        let mut j: usize = 0;
        assert(out@ + post_children(procs@, idx as int, 0, f) =~= start + post_children(
            procs@,
            idx as int,
            0,
            f,
        ));
        while j < n
            invariant
                n == procs@.len(),
                idx < n,
                j <= n,
                f == fuel - 1,
                out@ + post_children(procs@, idx as int, j as int, f) == start + post_children(
                    procs@,
                    idx as int,
                    0,
                    f,
                ),
            decreases n - j,
        {
            let ghost before = out@;
            if procs[j].stat.parent_process_id == procs[idx].stat.process_id {
                push_post_order(procs, j, fuel - 1, out);
            }
            assert(out@ + post_children(procs@, idx as int, j + 1, f) =~= before + post_children(
                procs@,
                idx as int,
                j as int,
                f,
            ));
            j = j + 1;
        }
    }
    out.push(idx);
    assert(out@ =~= start + post_order(procs@, idx as int, fuel as nat));
}

/// The order in which to stop the tree rooted at record `root`: the root
/// first, then each child's subtree, so that a still-running parent cannot
/// spawn a child that escapes. Depth is bounded by the snapshot's size.
pub fn stop_recursive(procs: &Vec<Proc>, root: usize) -> (r: Vec<usize>)
    requires
        root < procs@.len(),
    ensures
        r@ == pre_order(procs@, root as int, procs@.len()),
{
    let mut out: Vec<usize> = Vec::new();
    push_pre_order(procs, root, procs.len(), &mut out);
    assert(out@ =~= pre_order(procs@, root as int, procs@.len()));
    out
}

/// The order in which to continue the tree rooted at record `root`: every
/// child's subtree first, then the root, so that no parent resumes while a
/// child is still paused.
pub fn cont_recursive(procs: &Vec<Proc>, root: usize) -> (r: Vec<usize>)
    requires
        root < procs@.len(),
    ensures
        r@ == post_order(procs@, root as int, procs@.len()),
{
    let mut out: Vec<usize> = Vec::new();
    push_post_order(procs, root, procs.len(), &mut out);
    assert(out@ =~= post_order(procs@, root as int, procs@.len()));
    out
}

/// The order in which to kill the tree rooted at record `root`: every
/// child's subtree first, then the root, so that no child is orphaned
/// before it is found.
pub fn kill_recursive(procs: &Vec<Proc>, root: usize) -> (r: Vec<usize>)
    requires
        root < procs@.len(),
    ensures
        r@ == post_order(procs@, root as int, procs@.len()),
{
    let mut out: Vec<usize> = Vec::new();
    push_post_order(procs, root, procs.len(), &mut out);
    assert(out@ =~= post_order(procs@, root as int, procs@.len()));
    out
}

/// Every entry of `s` is a record of the snapshot whose parent is `ppid` or
/// appears earlier in `s`.
pub open spec fn parents_before(procs: Seq<Proc>, s: Seq<usize>, ppid: usize) -> bool {
    forall|k: int|
        0 <= k < s.len() ==> s[k] < procs.len() && (procs[s[k] as int].stat.parent_process_id
            == ppid || exists|j: int|
            0 <= j < k && procs[s[j] as int].stat.process_id == procs[s[
                k
            ] as int].stat.parent_process_id)
}

/// Every entry of `s` is a record of the snapshot whose parent is `ppid` or
/// appears later in `s`.
pub open spec fn parents_after(procs: Seq<Proc>, s: Seq<usize>, ppid: usize) -> bool {
    forall|k: int|
        0 <= k < s.len() ==> s[k] < procs.len() && (procs[s[k] as int].stat.parent_process_id
            == ppid || exists|j: int|
            k < j < s.len() && procs[s[j] as int].stat.process_id == procs[s[
                k
            ] as int].stat.parent_process_id)
}

proof fn lemma_before_concat(procs: Seq<Proc>, a: Seq<usize>, b: Seq<usize>, ppid: usize)
    requires
        parents_before(procs, a, ppid),
        parents_before(procs, b, ppid),
    ensures
        parents_before(procs, a + b, ppid),
{
    let c = a + b;
    assert forall|k: int| 0 <= k < c.len() implies c[k] < procs.len() && (procs[c[
        k
    ] as int].stat.parent_process_id == ppid || exists|j: int|
        0 <= j < k && procs[c[j] as int].stat.process_id == procs[c[
            k
        ] as int].stat.parent_process_id) by {
        if k < a.len() {
            assert(c[k] == a[k]);
            if procs[a[k] as int].stat.parent_process_id != ppid {
                let j = choose|j: int|
                    0 <= j < k && procs[a[j] as int].stat.process_id == procs[a[
                        k
                    ] as int].stat.parent_process_id;
                assert(c[j] == a[j]);
            }
        } else {
            assert(c[k] == b[k - a.len()]);
            if procs[b[k - a.len()] as int].stat.parent_process_id != ppid {
                let j = choose|j: int|
                    0 <= j < k - a.len() && procs[b[j] as int].stat.process_id == procs[b[k
                        - a.len()] as int].stat.parent_process_id;
                assert(c[j + a.len()] == b[j]);
            }
        }
    }
}

proof fn lemma_after_concat(procs: Seq<Proc>, a: Seq<usize>, b: Seq<usize>, ppid: usize)
    requires
        parents_after(procs, a, ppid),
        parents_after(procs, b, ppid),
    ensures
        parents_after(procs, a + b, ppid),
{
    let c = a + b;
    assert forall|k: int| 0 <= k < c.len() implies c[k] < procs.len() && (procs[c[
        k
    ] as int].stat.parent_process_id == ppid || exists|j: int|
        k < j < c.len() && procs[c[j] as int].stat.process_id == procs[c[
            k
        ] as int].stat.parent_process_id) by {
        if k < a.len() {
            assert(c[k] == a[k]);
            if procs[a[k] as int].stat.parent_process_id != ppid {
                let j = choose|j: int|
                    k < j < a.len() && procs[a[j] as int].stat.process_id == procs[a[
                        k
                    ] as int].stat.parent_process_id;
                assert(c[j] == a[j]);
            }
        } else {
            assert(c[k] == b[k - a.len()]);
            if procs[b[k - a.len()] as int].stat.parent_process_id != ppid {
                let j = choose|j: int|
                    k - a.len() < j < b.len() && procs[b[j] as int].stat.process_id == procs[b[k
                        - a.len()] as int].stat.parent_process_id;
                assert(c[j + a.len()] == b[j]);
            }
        }
    }
}

proof fn lemma_pre_order(procs: Seq<Proc>, idx: int, fuel: nat)
    requires
        procs.len() <= usize::MAX,
        0 <= idx < procs.len(),
    ensures
        pre_order(procs, idx, fuel).len() >= 1,
        pre_order(procs, idx, fuel)[0] == idx as usize,
        parents_before(
            procs,
            pre_order(procs, idx, fuel).drop_first(),
            procs[idx].stat.process_id,
        ),
    decreases fuel, 0nat,
{
    let s = pre_order(procs, idx, fuel);
    if fuel == 0 {
        assert(s.drop_first() =~= Seq::<usize>::empty());
    } else {
        lemma_pre_children(procs, idx, 0, (fuel - 1) as nat);
        assert(s.drop_first() =~= pre_children(procs, idx, 0, (fuel - 1) as nat));
    }
}

proof fn lemma_pre_children(procs: Seq<Proc>, parent: int, j: int, fuel: nat)
    requires
        procs.len() <= usize::MAX,
        0 <= parent < procs.len(),
        0 <= j,
    ensures
        parents_before(procs, pre_children(procs, parent, j, fuel), procs[parent].stat.process_id),
    decreases fuel, (if 0 <= j < procs.len() {
        procs.len() - j + 1
    } else {
        0
    }) as nat,
{
    let pid = procs[parent].stat.process_id;
    if j < procs.len() {
        lemma_pre_children(procs, parent, j + 1, fuel);
        if child_of(procs, j, parent) {
            lemma_pre_order(procs, j, fuel);
            let b = pre_order(procs, j, fuel);
            let d = b.drop_first();
            assert forall|k: int| 0 <= k < b.len() implies b[k] < procs.len() && (procs[b[
                k
            ] as int].stat.parent_process_id == pid || exists|i: int|
                0 <= i < k && procs[b[i] as int].stat.process_id == procs[b[
                    k
                ] as int].stat.parent_process_id) by {
                if k > 0 {
                    assert(b[k] == d[k - 1]);
                    if procs[d[k - 1] as int].stat.parent_process_id != procs[j].stat.process_id {
                        let i = choose|i: int|
                            0 <= i < k - 1 && procs[d[i] as int].stat.process_id == procs[d[k
                                - 1] as int].stat.parent_process_id;
                        assert(b[i + 1] == d[i]);
                    } else {
                        assert(b[0] == j);
                    }
                }
            }
            lemma_before_concat(procs, b, pre_children(procs, parent, j + 1, fuel), pid);
        } else {
            assert(Seq::<usize>::empty() + pre_children(procs, parent, j + 1, fuel)
                =~= pre_children(procs, parent, j + 1, fuel));
        }
    }
}

proof fn lemma_post_order(procs: Seq<Proc>, idx: int, fuel: nat)
    requires
        procs.len() <= usize::MAX,
        0 <= idx < procs.len(),
    ensures
        post_order(procs, idx, fuel).len() >= 1,
        post_order(procs, idx, fuel).last() == idx as usize,
        parents_after(
            procs,
            post_order(procs, idx, fuel).drop_last(),
            procs[idx].stat.process_id,
        ),
    decreases fuel, 0nat,
{
    let s = post_order(procs, idx, fuel);
    if fuel == 0 {
        assert(s.drop_last() =~= Seq::<usize>::empty());
    } else {
        lemma_post_children(procs, idx, 0, (fuel - 1) as nat);
        assert(s.drop_last() =~= post_children(procs, idx, 0, (fuel - 1) as nat));
    }
}

proof fn lemma_post_children(procs: Seq<Proc>, parent: int, j: int, fuel: nat)
    requires
        procs.len() <= usize::MAX,
        0 <= parent < procs.len(),
        0 <= j,
    ensures
        parents_after(procs, post_children(procs, parent, j, fuel), procs[parent].stat.process_id),
    decreases fuel, (if 0 <= j < procs.len() {
        procs.len() - j + 1
    } else {
        0
    }) as nat,
{
    let pid = procs[parent].stat.process_id;
    if j < procs.len() {
        lemma_post_children(procs, parent, j + 1, fuel);
        if child_of(procs, j, parent) {
            lemma_post_order(procs, j, fuel);
            let b = post_order(procs, j, fuel);
            let d = b.drop_last();
            assert forall|k: int| 0 <= k < b.len() implies b[k] < procs.len() && (procs[b[
                k
            ] as int].stat.parent_process_id == pid || exists|i: int|
                k < i < b.len() && procs[b[i] as int].stat.process_id == procs[b[
                    k
                ] as int].stat.parent_process_id) by {
                if k < b.len() - 1 {
                    assert(b[k] == d[k]);
                    if procs[d[k] as int].stat.parent_process_id != procs[j].stat.process_id {
                        let i = choose|i: int|
                            k < i < d.len() && procs[d[i] as int].stat.process_id == procs[d[
                                k
                            ] as int].stat.parent_process_id;
                        assert(b[i] == d[i]);
                    } else {
                        assert(b[b.len() - 1] == j);
                    }
                }
            }
            lemma_after_concat(procs, b, post_children(procs, parent, j + 1, fuel), pid);
        } else {
            assert(Seq::<usize>::empty() + post_children(procs, parent, j + 1, fuel)
                =~= post_children(procs, parent, j + 1, fuel));
        }
    }
}

/// Every entry of `s` is a record of the snapshot, and every entry but the
/// first has its parent earlier in `s`.
pub open spec fn parent_earlier(procs: Seq<Proc>, s: Seq<usize>) -> bool {
    &&& forall|k: int| 0 <= k < s.len() ==> #[trigger] s[k] < procs.len()
    &&& forall|k: int|
        1 <= k < s.len() ==> exists|j: int|
            0 <= j < k && procs[s[j] as int].stat.process_id == procs[#[trigger] s[
                k
            ] as int].stat.parent_process_id
}

/// Every entry of `s` is a record of the snapshot, and every entry but the
/// last has its parent later in `s`.
pub open spec fn parent_later(procs: Seq<Proc>, s: Seq<usize>) -> bool {
    &&& forall|k: int| 0 <= k < s.len() ==> #[trigger] s[k] < procs.len()
    &&& forall|k: int|
        0 <= k < s.len() - 1 ==> exists|j: int|
            k < j < s.len() && procs[s[j] as int].stat.process_id == procs[#[trigger] s[
                k
            ] as int].stat.parent_process_id
}

/// Suspension signals the root first and every other process after its
/// parent: each entry but the first has its parent earlier in the order.
pub proof fn suspend_signals_parent_first(procs: Seq<Proc>, root: int)
    requires
        procs.len() <= usize::MAX,
        0 <= root < procs.len(),
    ensures
        pre_order(procs, root, procs.len()).len() >= 1,
        pre_order(procs, root, procs.len())[0] == root as usize,
        parent_earlier(procs, pre_order(procs, root, procs.len())),
{
    let s = pre_order(procs, root, procs.len());
    lemma_pre_order(procs, root, procs.len());
    let d = s.drop_first();
    assert forall|k: int| 1 <= k < s.len() implies exists|j: int|
        0 <= j < k && procs[s[j] as int].stat.process_id == procs[#[trigger] s[
            k
        ] as int].stat.parent_process_id by {
        assert(s[k] == d[k - 1]);
        if procs[d[k - 1] as int].stat.parent_process_id != procs[root].stat.process_id {
            let i = choose|i: int|
                0 <= i < k - 1 && procs[d[i] as int].stat.process_id == procs[d[k
                    - 1] as int].stat.parent_process_id;
            assert(s[i + 1] == d[i]);
        }
    }
    assert forall|k: int| 0 <= k < s.len() implies #[trigger] s[k] < procs.len() by {
        if k > 0 {
            assert(s[k] == d[k - 1]);
        }
    }
}

/// Resumption and termination signal the root last and every other process
/// before its parent: each entry but the last has its parent later in the
/// order.
pub proof fn resume_signals_children_first(procs: Seq<Proc>, root: int)
    requires
        procs.len() <= usize::MAX,
        0 <= root < procs.len(),
    ensures
        post_order(procs, root, procs.len()).len() >= 1,
        post_order(procs, root, procs.len()).last() == root as usize,
        parent_later(procs, post_order(procs, root, procs.len())),
{
    let s = post_order(procs, root, procs.len());
    lemma_post_order(procs, root, procs.len());
    let d = s.drop_last();
    assert forall|k: int| 0 <= k < s.len() - 1 implies exists|j: int|
        k < j < s.len() && procs[s[j] as int].stat.process_id == procs[#[trigger] s[
            k
        ] as int].stat.parent_process_id by {
        assert(s[k] == d[k]);
        if procs[d[k] as int].stat.parent_process_id != procs[root].stat.process_id {
            let i = choose|i: int|
                k < i < d.len() && procs[d[i] as int].stat.process_id == procs[d[
                    k
                ] as int].stat.parent_process_id;
            assert(s[i] == d[i]);
        } else {
            assert(s[s.len() - 1] == root);
        }
    }
    assert forall|k: int| 0 <= k < s.len() implies #[trigger] s[k] < procs.len() by {
        if k < s.len() - 1 {
            assert(s[k] == d[k]);
        }
    }
}

} // verus!
