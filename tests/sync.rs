use monorepo_agent::config::AppConfig;
use monorepo_agent::registry::register_names;
use monorepo_agent::sync::{
    select_submodules, source_path, target_path, Action, Event, Outcome, Probe, SelectError,
    SyncRun,
};

fn registry(names: &str) -> AppConfig {
    let mut c = AppConfig::new();
    register_names(&mut c, names).unwrap();
    c
}

/// Drives a run; `source_ok` and `target` give what each position finds.
fn drive(
    work: Vec<usize>,
    source_ok: &dyn Fn(usize) -> bool,
    target: &dyn Fn(usize) -> Probe,
) -> (Vec<Action>, Vec<Outcome>) {
    let (mut run, mut a) = SyncRun::start(work);
    let mut log = vec![a];
    while a != Action::Finished {
        let ev = match a {
            Action::InspectSource(i) => {
                Event::Probed(if source_ok(i) { Probe::Directory } else { Probe::Missing })
            }
            Action::InspectTarget(i) => Event::Probed(target(i)),
            Action::CreateTarget(_) => Event::Created(true),
            Action::RunTool(_) => Event::ToolExited(true),
            Action::Finished => unreachable!(),
        };
        assert!(run.accepts(ev));
        a = run.advance(ev);
        log.push(a);
    }
    (log, run.outcomes.clone())
}

fn tool_runs(log: &[Action]) -> Vec<usize> {
    log.iter()
        .filter_map(|a| match a {
            Action::RunTool(i) => Some(*i),
            _ => None,
        })
        .collect()
}

#[test]
fn selection_of_all_and_of_named() {
    let c = registry("api,web,cli");
    assert_eq!(select_submodules(&c, None), Ok(vec![0, 1, 2]));
    assert_eq!(select_submodules(&c, Some("cli, api")), Ok(vec![0, 2]));
    assert_eq!(select_submodules(&c, Some("nope")), Ok(vec![]));
    assert_eq!(select_submodules(&c, Some("api,")), Err(SelectError::BlankName));
}

#[test]
fn empty_working_set_finishes_at_once() {
    let (run, a) = SyncRun::start(vec![]);
    assert_eq!(a, Action::Finished);
    assert!(run.outcomes.is_empty());
}

#[test]
fn sync_named_submodule_runs_tool_once() {
    let c = registry("api,web");
    let work = select_submodules(&c, Some("api")).unwrap();
    let (log, outcomes) = drive(work, &|_| true, &|_| Probe::Directory);
    assert_eq!(tool_runs(&log), vec![0]);
    assert_eq!(outcomes, vec![Outcome::Synced]);
}

#[test]
fn missing_source_does_not_stop_the_others() {
    let c = registry("a,b,c");
    let work = select_submodules(&c, None).unwrap();
    let (log, outcomes) = drive(work, &|i| i != 1, &|_| Probe::Directory);
    assert_eq!(tool_runs(&log), vec![0, 2]);
    assert_eq!(
        outcomes,
        vec![Outcome::Synced, Outcome::SkippedMissingSource, Outcome::Synced]
    );
}

#[test]
fn missing_target_is_created_before_the_tool_runs() {
    let (log, outcomes) = drive(vec![4], &|_| true, &|_| Probe::Missing);
    assert_eq!(
        log,
        vec![
            Action::InspectSource(4),
            Action::InspectTarget(4),
            Action::CreateTarget(4),
            Action::RunTool(4),
            Action::Finished,
        ]
    );
    assert_eq!(outcomes, vec![Outcome::Synced]);
}

#[test]
fn bad_target_and_failures_are_per_entry() {
    let (log, outcomes) = drive(vec![0, 1], &|_| true, &|i| {
        if i == 0 { Probe::NotDirectory } else { Probe::Directory }
    });
    assert_eq!(tool_runs(&log), vec![1]);
    assert_eq!(outcomes, vec![Outcome::SkippedBadTarget, Outcome::Synced]);

    let (mut run, _) = SyncRun::start(vec![0, 1]);
    run.advance(Event::Probed(Probe::Directory));
    run.advance(Event::Probed(Probe::Missing));
    assert_eq!(run.advance(Event::Created(false)), Action::InspectSource(1));
    run.advance(Event::Probed(Probe::Directory));
    run.advance(Event::Probed(Probe::Directory));
    assert_eq!(run.advance(Event::ToolExited(false)), Action::Finished);
    assert_eq!(run.outcomes, vec![Outcome::Failed, Outcome::Failed]);
    assert!(!run.accepts(Event::ToolExited(true)));
}

#[test]
fn mismatched_event_is_not_accepted() {
    let (run, _) = SyncRun::start(vec![0]);
    assert!(!run.accepts(Event::Created(true)));
    assert!(run.accepts(Event::Probed(Probe::Missing)));
}

#[test]
fn paths_resolve_under_root_and_beside_it() {
    let c = registry("api");
    let mut e = c.submodules[0].clone();
    e.path = "packages/api".to_string();
    assert_eq!(source_path("/w/mono", &e), "/w/mono/packages/api");
    assert_eq!(target_path("/w", &e), "/w/api");
}
