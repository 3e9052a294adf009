use procwatch::action::build_config;
use procwatch::controller::{action_for, run_polls, Controller, Fired};
use procwatch::snapshot::{ProcessRecord, Snapshot};

fn run(results: &[bool]) -> Vec<Fired> {
    let mut c = Controller::new();
    results.iter().map(|m| c.observe(*m)).collect()
}

#[test]
fn launch_fires_once_per_rising_edge() {
    let fired = run(&[false, true, true, false, true]);
    assert_eq!(
        fired,
        vec![
            Fired::Nothing,
            Fired::Launch,
            Fired::Nothing,
            Fired::Close,
            Fired::Launch,
        ]
    );
}

#[test]
fn repeated_presence_never_relaunches() {
    let fired = run(&[true, true, true, true]);
    assert_eq!(
        fired,
        vec![Fired::Launch, Fired::Nothing, Fired::Nothing, Fired::Nothing]
    );
}

#[test]
fn repeated_absence_never_recloses() {
    let fired = run(&[true, false, false, false]);
    assert_eq!(
        fired,
        vec![Fired::Launch, Fired::Close, Fired::Nothing, Fired::Nothing]
    );
}

#[test]
fn run_polls_agrees_with_stepping() {
    let results = vec![false, true, true, false, true];
    assert_eq!(run_polls(&results), run(&results));
}

#[test]
fn starts_absent_and_stays_absent_without_match() {
    let mut c = Controller::new();
    assert!(!c.target_present);
    let f = c.observe(false);
    assert_eq!(f, Fired::Nothing);
    assert!(!c.target_present);
}

#[test]
fn poll_detects_and_launches_then_closes() {
    let cfg = build_config("game".to_string(), "run.exe now", Some("stop.exe")).unwrap();
    let mut c = Controller::new();

    let empty = Snapshot { records: vec![] };
    let with_game = Snapshot {
        records: vec![ProcessRecord { pid: 1, name: "Game.EXE".to_string() }],
    };

    assert_eq!(c.poll(&cfg, &empty), Fired::Nothing);
    assert!(!c.target_present);

    let f = c.poll(&cfg, &with_game);
    assert_eq!(f, Fired::Launch);
    assert!(c.target_present);
    let a = action_for(&cfg, f).unwrap();
    assert_eq!(a.program, "run.exe");
    assert_eq!(a.args, vec!["now".to_string()]);

    assert_eq!(c.poll(&cfg, &with_game), Fired::Nothing);

    let f = c.poll(&cfg, &empty);
    assert_eq!(f, Fired::Close);
    assert!(!c.target_present);
    let a = action_for(&cfg, f).unwrap();
    assert_eq!(a.program, "stop.exe");
    assert!(a.args.is_empty());
}

#[test]
fn falling_edge_without_closing_action_runs_nothing() {
    let cfg = build_config("game".to_string(), "run.exe", None).unwrap();
    assert!(action_for(&cfg, Fired::Close).is_none());
    assert!(action_for(&cfg, Fired::Nothing).is_none());
    assert_eq!(action_for(&cfg, Fired::Launch).unwrap().program, "run.exe");
}
