use parchment::supervisor::is_draft_running;
use parchment::draft::{Draft, DraftError};
use parchment::process::{
    cont_recursive, has_session, is_child_process_of, is_running, is_stopped, kill_recursive,
    not_system_process, stop_recursive, system_xochitl_process, Proc, Stat, State,
};
use parchment::supervisor::{
    draft_procs, is_draft, path_temp_icon, path_temp_icons, path_temp_pid, path_temp_pids,
    path_temp_screenshot, path_temp_screenshots, run_draft_program, running_draft_procs,
    DraftProc, PidMarker, RunType,
};

fn proc(pid: usize, ppid: usize, name: &str, state: State) -> Proc {
    Proc { stat: Stat::basic(pid, name.to_string(), state, ppid, 1), cmdline: String::new() }
}

fn tree() -> Vec<Proc> {
    vec![
        proc(12, 10, "child_b", State::Sleeping),
        proc(10, 1, "root", State::Running),
        proc(13, 11, "grandchild", State::Sleeping),
        proc(11, 10, "child_a", State::Running),
        proc(99, 1, "other", State::Running),
    ]
}

fn pids(procs: &[Proc], order: &[usize]) -> Vec<usize> {
    order.iter().map(|&i| procs[i].stat.process_id).collect()
}

#[test]
fn suspend_signals_parent_before_children() {
    let t = tree();
    assert_eq!(pids(&t, &stop_recursive(&t, 1)), vec![10, 12, 11, 13]);
}

#[test]
fn resume_and_kill_signal_children_before_parent() {
    let t = tree();
    assert_eq!(pids(&t, &cont_recursive(&t, 1)), vec![12, 13, 11, 10]);
    assert_eq!(pids(&t, &kill_recursive(&t, 1)), vec![12, 13, 11, 10]);
    assert_eq!(pids(&t, &kill_recursive(&t, 4)), vec![99]);
}

#[test]
fn self_parented_record_terminates() {
    let t = vec![proc(5, 5, "loop", State::Running)];
    let order = stop_recursive(&t, 0);
    assert_eq!(order.len(), 2);
    assert!(order.iter().all(|&i| i == 0));
}

fn draft(name: &str, call: &str) -> Draft {
    let text = format!("name={name}\ndesc=d\ncall={call}\n");
    Draft::new(&text).unwrap()
}

#[test]
fn dead_marker_is_stale_and_unmatched() {
    let drafts = vec![draft("KOReader", "/opt/koreader/koreader.sh")];
    let markers = vec![
        PidMarker { name: "KOReader".to_string(), pid: 4242 },
        PidMarker { name: "KOReader".to_string(), pid: 10 },
        PidMarker { name: "xochitl".to_string(), pid: 11 },
    ];
    let report = draft_procs(&drafts, &markers, &tree());
    assert_eq!(report.stale, vec![0]);
    assert_eq!(report.matches, vec![DraftProc { marker: 1, draft: 0, proc: 1 }]);
}

#[test]
fn running_and_resumable_drafts() {
    let mut t = tree();
    t.push(proc(50, 1, "paused", State::Traced));
    let drafts = vec![draft("A", "/bin/root"), draft("B", "/bin/paused")];
    let matches = vec![
        DraftProc { marker: 0, draft: 0, proc: 1 },
        DraftProc { marker: 1, draft: 1, proc: 5 },
    ];
    assert_eq!(running_draft_procs(&matches, &t), vec![matches[0]]);
    assert_eq!(run_draft_program(&matches, &drafts, &t, "B"), (RunType::Continue, Some(matches[1])));
    assert_eq!(run_draft_program(&matches, &drafts, &t, "A"), (RunType::Launch, None));
}

#[test]
fn process_predicates() {
    let p = proc(7, 3, "tray", State::Delay);
    assert!(is_running(&p));
    assert!(!is_stopped(&p));
    assert!(has_session(&p, 1));
    assert!(!has_session(&p, 2));
    assert!(is_child_process_of(&p, 3));
    assert!(!not_system_process(&p));
    assert!(not_system_process(&proc(8, 3, "koreader", State::Zombie)));
    assert!(!is_running(&proc(8, 3, "x", State::Zombie)));
    assert!(is_stopped(&proc(8, 3, "x", State::Traced)));
    let mut procs = tree();
    assert_eq!(system_xochitl_process(&procs), None);
    procs[4].cmdline = "/usr/bin/xochitl --system".to_string();
    assert_eq!(system_xochitl_process(&procs), Some(4));
}

#[test]
fn state_letters() {
    assert!(matches!(State::parse("R"), State::Running));
    assert!(matches!(State::parse("S"), State::Sleeping));
    assert!(matches!(State::parse("D"), State::Delay));
    assert!(matches!(State::parse("Z"), State::Zombie));
    assert!(matches!(State::parse("T"), State::Traced));
    match State::parse("I") {
        State::Unknown(s) => assert_eq!(s, "I"),
        _ => panic!("expected an unknown state"),
    }
}

#[test]
fn draft_binding_by_file_name() {
    let drafts = vec![draft("A", "/opt/bin/alpha"), draft("B", "beta")];
    assert_eq!(drafts[0].file_name(), "alpha");
    assert_eq!(drafts[1].file_name(), "beta");
    assert_eq!(is_draft(&drafts, &proc(1, 0, "beta", State::Running)), Some(1));
    assert_eq!(is_draft(&drafts, &proc(1, 0, "gamma", State::Running)), None);
}

#[test]
fn draft_descriptor_parsing() {
    let text = "# comment\nname=KOReader\r\ndesc=An ebook reader\n\ncall=/opt/koreader/koreader.sh\nimgFile=koreader\nterm=:\nwhich=koreader\nunknown=x\n";
    let d = Draft::new(text).unwrap();
    assert_eq!(d.name, "KOReader");
    assert_eq!(d.desc, "An ebook reader");
    assert_eq!(d.call, "/opt/koreader/koreader.sh");
    assert_eq!(d.icon.as_deref(), Some("/opt/etc/draft/icons/koreader.png"));
    assert_eq!(d.term.as_deref(), Some(":"));
    assert_eq!(d.which.as_deref(), Some("koreader"));
    assert_eq!(d.check_launch_target(true).unwrap().name, "KOReader");
}

#[test]
fn draft_descriptor_errors() {
    assert_eq!(Draft::new("desc=x\ncall=/a").unwrap_err(), DraftError::NoName);
    assert_eq!(Draft::new("name=x\ncall=/a").unwrap_err(), DraftError::NoDescription);
    assert_eq!(Draft::new("name=x\nbroken\ndesc=y").unwrap_err(), DraftError::MalformedLine);
    assert_eq!(Draft::new("").unwrap_err(), DraftError::NoName);
    let d = Draft::new("name=x\ndesc=y=z").unwrap();
    assert_eq!(d.desc, "y=z");
    assert_eq!(d.check_launch_target(false).unwrap_err(), DraftError::MissingLaunchTarget);
    assert_eq!(DraftError::NoName.message(), "Draft has no name");
}

#[test]
fn scratch_paths() {
    assert_eq!(path_temp_screenshots(), "/tmp/parchment/screenshots");
    assert_eq!(path_temp_screenshot("panel"), "/tmp/parchment/screenshots/panel");
    assert_eq!(path_temp_icons(), "/tmp/parchment/icons");
    assert_eq!(path_temp_icon("a.png"), "/tmp/parchment/icons/a.png");
    assert_eq!(path_temp_pids(), "/tmp/parchment/processes");
    assert_eq!(path_temp_pid("xochitl"), "/tmp/parchment/processes/xochitl.pid");
}

#[test]
fn running_by_launch_file_name() {
    let drafts = vec![draft("A", "/opt/a/run"), draft("B", "/usr/b/run"), draft("C", "/c/other")];
    let matches = vec![DraftProc { marker: 0, draft: 0, proc: 0 }];
    assert!(is_draft_running(&matches, &drafts, 0));
    assert!(is_draft_running(&matches, &drafts, 1));
    assert!(!is_draft_running(&matches, &drafts, 2));
    assert!(!is_draft_running(&Vec::new(), &drafts, 0));
}
