//! Binding drafts to live processes: PID markers reconciled against a
//! process-table snapshot, and the launch-or-resume decision.
use vstd::prelude::*;
use vstd::string::{StrSliceExecFns, StringExecFns};

use crate::draft::Draft;
use crate::process::{is_running, is_stopped, Proc};
use crate::text::str_eq;

verus! {

/// Root of the shell's scratch directories.
pub const TEMP_DIR: &'static str = "/tmp/parchment";

pub const TEMP_DIR_SCREENSHOTS: &'static str = "screenshots";

pub const TEMP_DIR_ICONS: &'static str = "icons";

pub const TEMP_DIR_PIDS: &'static str = "processes";

/// Largest displacement, in pixels, that still counts as a tap.
pub const TAP_HYSTERESIS: u32 = 32;

/// How many copies of a device's flood burst clear its queue.
pub const INPUT_BUFFER_SIZE: usize = 4096;

/// Whether a draft is launched anew or an existing stopped instance resumed.
#[derive(Clone, Copy, Debug, PartialEq, Eq, Structural)]
pub enum RunType {
    Continue,
    Launch,
}

/// An on-disk record of the last process launched for an identity.
#[derive(Debug)]
pub struct PidMarker {
    pub name: String,
    pub pid: usize,
}

/// A draft bound to a live process through marker `marker`.
#[derive(Clone, Copy, Debug, PartialEq, Eq, Structural)]
pub struct DraftProc {
    pub marker: usize,
    pub draft: usize,
    pub proc: usize,
}

/// The outcome of reconciling markers: the bindings, and the markers whose
/// process is gone and which are to be deleted.
#[derive(Debug)]
pub struct MarkerReport {
    pub matches: Vec<DraftProc>,
    pub stale: Vec<usize>,
}

/// The last path component of `s`: what follows its last `/`.
pub open spec fn last_slash_from(s: Seq<char>, i: int) -> int
    decreases i,
{
    if i <= 0 {
        -1
    } else if s[i - 1] == '/' {
        i - 1
    } else {
        last_slash_from(s, i - 1)
    }
}

pub open spec fn file_name_of(s: Seq<char>) -> Seq<char> {
    s.subrange(last_slash_from(s, s.len() as int) + 1, s.len() as int)
}

/// Index of the first record at or after `i` with process id `pid`, or
/// the length if none.
pub open spec fn proc_from(procs: Seq<Proc>, pid: usize, i: int) -> int
    decreases procs.len() - i,
{
    if i < 0 || i >= procs.len() {
        procs.len() as int
    } else if procs[i].stat.process_id == pid {
        i
    } else {
        proc_from(procs, pid, i + 1)
    }
}

/// Index of the first draft at or after `i` named `name`, or the length.
pub open spec fn draft_from(drafts: Seq<Draft>, name: Seq<char>, i: int) -> int
    decreases drafts.len() - i,
{
    if i < 0 || i >= drafts.len() {
        drafts.len() as int
    } else if drafts[i].name@ == name {
        i
    } else {
        draft_from(drafts, name, i + 1)
    }
}

/// What reconciling the first `n` markers yields: each marker whose process
/// is gone is stale; each other one naming a draft binds that draft to the
/// first record with its pid; a live marker naming no draft is passed over.
pub open spec fn reconcile(
    drafts: Seq<Draft>,
    markers: Seq<PidMarker>,
    procs: Seq<Proc>,
    n: int,
) -> (Seq<DraftProc>, Seq<usize>)
    decreases n,
{
    if n <= 0 {
        (Seq::empty(), Seq::empty())
    } else {
        let prev = reconcile(drafts, markers, procs, n - 1);
        let m = markers[n - 1];
        let p = proc_from(procs, m.pid, 0);
        let d = draft_from(drafts, m.name@, 0);
        if p >= procs.len() {
            (prev.0, prev.1.push((n - 1) as usize))
        } else if d >= drafts.len() {
            prev
        } else {
            (prev.0.push(DraftProc { marker: (n - 1) as usize, draft: d as usize, proc: p as usize }), prev.1)
        }
    }
}

fn find_proc(procs: &Vec<Proc>, pid: usize) -> (r: usize)
    ensures
        r == proc_from(procs@, pid, 0),
        r <= procs@.len(),
{
    let n = procs.len();
    let mut i: usize = 0;
    while i < n && procs[i].stat.process_id != pid
        invariant
            n == procs@.len(),
            i <= n,
            proc_from(procs@, pid, 0) == proc_from(procs@, pid, i as int),
        decreases n - i,
    {
        i = i + 1;
    }
    i
}

fn find_draft(drafts: &Vec<Draft>, name: &str) -> (r: usize)
    ensures
        r == draft_from(drafts@, name@, 0),
        r <= drafts@.len(),
{
    let n = drafts.len();
    let mut i: usize = 0;
    while i < n && !str_eq(drafts[i].name.as_str(), name)
        invariant
            n == drafts@.len(),
            i <= n,
            draft_from(drafts@, name@, 0) == draft_from(drafts@, name@, i as int),
        decreases n - i,
    {
        i = i + 1;
    }
    i
}

/// Reconciles PID markers against a process-table snapshot.
pub fn draft_procs(drafts: &Vec<Draft>, markers: &Vec<PidMarker>, procs: &Vec<Proc>) -> (r:
    MarkerReport)
    ensures
        (r.matches@, r.stale@) == reconcile(drafts@, markers@, procs@, markers@.len() as int),
{
    let mut matches: Vec<DraftProc> = Vec::new();
    let mut stale: Vec<usize> = Vec::new();
    let n = markers.len();
    let mut i: usize = 0;
    while i < n
        invariant
            n == markers@.len(),
            i <= n,
            (matches@, stale@) == reconcile(drafts@, markers@, procs@, i as int),
        decreases n - i,
    {
        let p = find_proc(procs, markers[i].pid);
        let d = find_draft(drafts, markers[i].name.as_str());
        if p >= procs.len() {
            stale.push(i);
        } else if d < drafts.len() {
            matches.push(DraftProc { marker: i, draft: d, proc: p });
        }
        i = i + 1;
    }
    MarkerReport { matches, stale }
}

/// A marker whose process is gone is reported stale and bound to nothing;
/// a marker whose process is live is never reported stale.
pub proof fn dead_marker_is_stale(
    drafts: Seq<Draft>,
    markers: Seq<PidMarker>,
    procs: Seq<Proc>,
    n: int,
    i: int,
)
    requires
        0 <= i < n <= markers.len(),
        n <= usize::MAX,
        procs.len() <= usize::MAX,
        drafts.len() <= usize::MAX,
    ensures
        (forall|j: int| 0 <= j < procs.len() ==> procs[j].stat.process_id != markers[i].pid)
            ==> reconcile(drafts, markers, procs, n).1.contains(i as usize) && forall|k: int|
            0 <= k < reconcile(drafts, markers, procs, n).0.len() ==> reconcile(
                drafts,
                markers,
                procs,
                n,
            ).0[k].marker != i,
        (exists|j: int| 0 <= j < procs.len() && procs[j].stat.process_id == markers[i].pid)
            ==> !reconcile(drafts, markers, procs, n).1.contains(i as usize),
    decreases n,
{
    lemma_reconcile_markers(drafts, markers, procs, n);
    lemma_proc_from(procs, markers[i].pid, 0);
    let r = reconcile(drafts, markers, procs, n);
    if forall|j: int| 0 <= j < procs.len() ==> procs[j].stat.process_id != markers[i].pid {
        if n - 1 == i {
            let prev = reconcile(drafts, markers, procs, n - 1);
            assert(r.1 == prev.1.push(i as usize));
            assert(r.1[prev.1.len() as int] == i as usize);
        } else {
            dead_marker_is_stale(drafts, markers, procs, n - 1, i);
            let prev = reconcile(drafts, markers, procs, n - 1);
            let k = choose|k: int| 0 <= k < prev.1.len() && prev.1[k] == i as usize;
            assert(r.1[k] == i as usize);
        }
    }
}

proof fn lemma_proc_from(procs: Seq<Proc>, pid: usize, i: int)
    requires
        0 <= i <= procs.len(),
    ensures
        i <= proc_from(procs, pid, i) <= procs.len(),
        proc_from(procs, pid, i) < procs.len() ==> procs[proc_from(procs, pid, i)].stat.process_id
            == pid,
        proc_from(procs, pid, i) == procs.len() ==> forall|j: int|
            i <= j < procs.len() ==> procs[j].stat.process_id != pid,
    decreases procs.len() - i,
{
    if i < procs.len() && procs[i].stat.process_id != pid {
        lemma_proc_from(procs, pid, i + 1);
    }
}

proof fn lemma_reconcile_markers(
    drafts: Seq<Draft>,
    markers: Seq<PidMarker>,
    procs: Seq<Proc>,
    n: int,
)
    requires
        0 <= n <= markers.len(),
        n <= usize::MAX,
        procs.len() <= usize::MAX,
        drafts.len() <= usize::MAX,
    ensures
        forall|k: int|
            0 <= k < reconcile(drafts, markers, procs, n).0.len() ==> {
                let e = #[trigger] reconcile(drafts, markers, procs, n).0[k];
                &&& e.marker < n
                &&& e.proc < procs.len()
                &&& procs[e.proc as int].stat.process_id == markers[e.marker as int].pid
            },
        forall|k: int|
            0 <= k < reconcile(drafts, markers, procs, n).1.len() ==> {
                let m = #[trigger] reconcile(drafts, markers, procs, n).1[k];
                &&& m < n
                &&& forall|j: int|
                    0 <= j < procs.len() ==> procs[j].stat.process_id != markers[m as int].pid
            },
    decreases n,
{
    if n > 0 {
        lemma_reconcile_markers(drafts, markers, procs, n - 1);
        lemma_proc_from(procs, markers[n - 1].pid, 0);
        let prev = reconcile(drafts, markers, procs, n - 1);
        let r = reconcile(drafts, markers, procs, n);
        assert forall|k: int| 0 <= k < r.0.len() implies {
            let e = #[trigger] r.0[k];
            &&& e.marker < n
            &&& e.proc < procs.len()
            &&& procs[e.proc as int].stat.process_id == markers[e.marker as int].pid
        } by {
            if k < prev.0.len() {
                assert(r.0[k] == prev.0[k]);
            }
        }
        assert forall|k: int| 0 <= k < r.1.len() implies {
            let m = #[trigger] r.1[k];
            &&& m < n
            &&& forall|j: int|
                0 <= j < procs.len() ==> procs[j].stat.process_id != markers[m as int].pid
        } by {
            if k < prev.1.len() {
                assert(r.1[k] == prev.1[k]);
            }
        }
    }
}

/// Holds of a binding whose process is running, sleeping or waiting on I/O.
pub open spec fn alive_in(procs: Seq<Proc>) -> spec_fn(DraftProc) -> bool {
    |e: DraftProc| procs[e.proc as int].stat.state.alive()
}

/// The bindings whose process is running, sleeping or waiting on I/O, in
/// order: the drafts to stop when the shell opens.
pub fn running_draft_procs(matches: &Vec<DraftProc>, procs: &Vec<Proc>) -> (r: Vec<DraftProc>)
    requires
        forall|k: int| 0 <= k < matches@.len() ==> (#[trigger] matches@[k]).proc < procs@.len(),
    ensures
        r@ == matches@.filter(alive_in(procs@)),
{
    let ghost keep = alive_in(procs@);
    let mut out: Vec<DraftProc> = Vec::new();
    let n = matches.len();
    proof {
        reveal(Seq::filter);
    }
    assert(matches@.subrange(0, 0).filter(keep) =~= Seq::<DraftProc>::empty());
    let mut i: usize = 0;
    while i < n
        invariant
            n == matches@.len(),
            i <= n,
            forall|k: int| 0 <= k < matches@.len() ==> (#[trigger] matches@[k]).proc < procs@.len(),
            keep == alive_in(procs@),
            out@ == matches@.subrange(0, i as int).filter(keep),
        decreases n - i,
    {
        let e = matches[i];
        proof {
            reveal(Seq::filter);
            assert(matches@.subrange(0, i + 1).drop_last() =~= matches@.subrange(0, i as int));
        }
        let alive = is_running(&procs[e.proc]);
        proof {
            let t = matches@.subrange(0, i + 1);
            assert(t.last() == e);
            assert(procs@[e.proc as int].stat.state.alive() == alive);
            assert(keep(e) == procs@[e.proc as int].stat.state.alive());
            assert(t.filter(keep) == if keep(t.last()) {
                t.drop_last().filter(keep).push(t.last())
            } else {
                t.drop_last().filter(keep)
            });
        }
        if alive {
            out.push(e);
        }
        i = i + 1;
    }
    assert(matches@.subrange(0, n as int) =~= matches@);
    out
}

/// The first binding of the draft named `name` whose process is stopped,
/// if any: the instance to resume rather than launch anew.
pub open spec fn resumable_from(
    matches: Seq<DraftProc>,
    drafts: Seq<Draft>,
    procs: Seq<Proc>,
    name: Seq<char>,
    i: int,
) -> Option<DraftProc>
    decreases matches.len() - i,
{
    if i < 0 || i >= matches.len() {
        None
    } else if procs[matches[i].proc as int].stat.state is Traced && drafts[matches[
        i
    ].draft as int].name@ == name {
        Some(matches[i])
    } else {
        resumable_from(matches, drafts, procs, name, i + 1)
    }
}

/// Whether to resume a stopped instance of the draft named `name` (the
/// binding returned) or to launch it.
pub fn run_draft_program(
    matches: &Vec<DraftProc>,
    drafts: &Vec<Draft>,
    procs: &Vec<Proc>,
    name: &str,
) -> (r: (RunType, Option<DraftProc>))
    requires
        forall|k: int|
            0 <= k < matches@.len() ==> (#[trigger] matches@[k]).proc < procs@.len()
                && matches@[k].draft < drafts@.len(),
    ensures
        r.1 == resumable_from(matches@, drafts@, procs@, name@, 0),
        r.0 == (if r.1 is Some {
            RunType::Continue
        } else {
            RunType::Launch
        }),
{
    let n = matches.len();
    let mut i: usize = 0;
    while i < n
        invariant
            n == matches@.len(),
            i <= n,
            forall|k: int|
                0 <= k < matches@.len() ==> (#[trigger] matches@[k]).proc < procs@.len()
                    && matches@[k].draft < drafts@.len(),
            resumable_from(matches@, drafts@, procs@, name@, 0) == resumable_from(
                matches@,
                drafts@,
                procs@,
                name@,
                i as int,
            ),
        decreases n - i,
    {
        let e = matches[i];
        if is_stopped(&procs[e.proc]) && str_eq(drafts[e.draft].name.as_str(), name) {
            return (RunType::Continue, Some(e));
        }
        i = i + 1;
    }
    (RunType::Launch, None)
}

/// Index of the last `/` in `s`, if any.
fn last_slash(s: &str) -> (r: Option<usize>)
    ensures
        r is None ==> last_slash_from(s@, s@.len() as int) == -1,
        r is Some ==> r->0 == last_slash_from(s@, s@.len() as int) && r->0 < s@.len(),
{
    let mut i = s.unicode_len();
    while i > 0 && s.get_char(i - 1) != '/'
        invariant
            i <= s@.len(),
            last_slash_from(s@, s@.len() as int) == last_slash_from(s@, i as int),
        decreases i,
    {
        i = i - 1;
    }
    if i == 0 {
        None
    } else {
        Some(i - 1)
    }
}

impl Draft {
    /// The file name of the launch target: its last path component.
    pub fn file_name(&self) -> (r: String)
        ensures
            r@ == file_name_of(self.call@),
    {
        let s = self.call.as_str();
        let n = s.unicode_len();
        match last_slash(s) {
            Some(k) => String::from_str(s.substring_char(k + 1, n)),
            None => String::from_str(s.substring_char(0, n)),
        }
    }
}

/// The first draft, at or after `i`, whose launch target's file name is the
/// process's command name, or the length if none.
pub open spec fn draft_for_proc_from(drafts: Seq<Draft>, proc: Proc, i: int) -> int
    decreases drafts.len() - i,
{
    if i < 0 || i >= drafts.len() {
        drafts.len() as int
    } else if file_name_of(drafts[i].call@) == proc.stat.filename@ {
        i
    } else {
        draft_for_proc_from(drafts, proc, i + 1)
    }
}

/// The draft that launched the process, judged by file name: the first
/// whose launch target's file name is the process's command name.
pub fn is_draft(drafts: &Vec<Draft>, proc: &Proc) -> (r: Option<usize>)
    ensures
        r is None ==> draft_for_proc_from(drafts@, *proc, 0) == drafts@.len(),
        r is Some ==> r->0 == draft_for_proc_from(drafts@, *proc, 0) && r->0 < drafts@.len(),
{
    let n = drafts.len();
    let mut i: usize = 0;
    while i < n
        invariant
            n == drafts@.len(),
            i <= n,
            draft_for_proc_from(drafts@, *proc, 0) == draft_for_proc_from(drafts@, *proc, i as int),
        decreases n - i,
    {
        let f = drafts[i].file_name();
        if str_eq(f.as_str(), proc.stat.filename.as_str()) {
            return Some(i);
        }
        i = i + 1;
    }
    None
}

/// Whether some binding's draft launches the same file as draft `i`: the
/// draft counts as running.
pub fn is_draft_running(matches: &Vec<DraftProc>, drafts: &Vec<Draft>, i: usize) -> (r: bool)
    requires
        i < drafts@.len(),
        forall|k: int| 0 <= k < matches@.len() ==> (#[trigger] matches@[k]).draft < drafts@.len(),
    ensures
        r == exists|k: int|
            0 <= k < matches@.len() && file_name_of(drafts@[matches@[k].draft as int].call@)
                == file_name_of(drafts@[i as int].call@),
{
    let target = drafts[i].file_name();
    let n = matches.len();
    let mut k: usize = 0;
    while k < n
        invariant
            n == matches@.len(),
            k <= n,
            target@ == file_name_of(drafts@[i as int].call@),
            forall|j: int| 0 <= j < matches@.len() ==> (#[trigger] matches@[j]).draft < drafts@.len(),
            forall|j: int|
                0 <= j < k ==> file_name_of(drafts@[matches@[j].draft as int].call@) != target@,
        decreases n - k,
    {
        let f = drafts[matches[k].draft].file_name();
        if str_eq(f.as_str(), target.as_str()) {
            return true;
        }
        k = k + 1;
    }
    false
}

/// `dir` joined with `name` by one `/`.
pub open spec fn join(dir: Seq<char>, name: Seq<char>) -> Seq<char> {
    dir + "/"@ + name
}

fn join_path(dir: &str, name: &str) -> (r: String)
    ensures
        r@ == join(dir@, name@),
{
    String::from_str(dir).concat("/").concat(name)
}

/// The directory of saved screen regions.
pub fn path_temp_screenshots() -> (r: String)
    ensures
        r@ == join("/tmp/parchment"@, "screenshots"@),
{
    join_path(TEMP_DIR, TEMP_DIR_SCREENSHOTS)
}

/// The saved screen region named `filename`.
pub fn path_temp_screenshot(filename: &str) -> (r: String)
    ensures
        r@ == join(join("/tmp/parchment"@, "screenshots"@), filename@),
{
    let dir = path_temp_screenshots();
    join_path(dir.as_str(), filename)
}

/// The directory of cached icons.
pub fn path_temp_icons() -> (r: String)
    ensures
        r@ == join("/tmp/parchment"@, "icons"@),
{
    join_path(TEMP_DIR, TEMP_DIR_ICONS)
}

/// The cached icon named `filename`.
pub fn path_temp_icon(filename: &str) -> (r: String)
    ensures
        r@ == join(join("/tmp/parchment"@, "icons"@), filename@),
{
    let dir = path_temp_icons();
    join_path(dir.as_str(), filename)
}

/// The directory of PID markers.
pub fn path_temp_pids() -> (r: String)
    ensures
        r@ == join("/tmp/parchment"@, "processes"@),
{
    join_path(TEMP_DIR, TEMP_DIR_PIDS)
}

/// The PID marker of identity `name`.
pub fn path_temp_pid(name: &str) -> (r: String)
    ensures
        r@ == join(join("/tmp/parchment"@, "processes"@), name@) + ".pid"@,
{
    let dir = path_temp_pids();
    join_path(dir.as_str(), name).concat(".pid")
}

} // verus!
