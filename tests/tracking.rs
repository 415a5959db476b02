use process_uptime_tracker::activity::ActivityState;
use process_uptime_tracker::engine::{elapsed_secs, Tracker};
use process_uptime_tracker::intake::{plan_intake, ControlEvent, IntakePlan};
use process_uptime_tracker::store::{load, save};
use process_uptime_tracker::viewer::{format_time, label, ProcessUptimeApp};

fn s(x: &str) -> String {
    x.to_string()
}

#[test]
fn time_is_conserved_over_resolved_ticks() {
    let mut t = Tracker::new(ActivityState::new(), 0);
    let ticks = [("A", 1000u64), ("B", 3000), ("A", 5500), ("A", 7000), ("C", 9999), ("B", 12000)];
    for (id, now) in ticks {
        assert!(t.tick(now, Some(s(id))).is_some());
    }
    // A: 1 + 2 + 1 = 4, B: 2 + 2 = 4, C: 2
    assert_eq!(t.state().get(&s("A")), 4);
    assert_eq!(t.state().get(&s("B")), 4);
    assert_eq!(t.state().get(&s("C")), 2);
    assert_eq!(t.state().len(), 3);
    assert_eq!(t.last_tick_ms(), 12000);
}

#[test]
fn unknown_tick_changes_nothing() {
    let mut t = Tracker::new(ActivityState::new(), 0);
    t.tick(2000, Some(s("A")));
    assert_eq!(t.tick(5000, None), None);
    assert_eq!(t.state().get(&s("A")), 2);
    assert_eq!(t.state().len(), 1);
    // the dropped seconds are not credited later either
    t.tick(6000, Some(s("A")));
    assert_eq!(t.state().get(&s("A")), 3);
}

#[test]
fn save_then_load_round_trips() {
    let mut st = ActivityState::new();
    st.set(s("editor"), 120);
    st.set(s("browser \"x\" \\ é"), 7);
    st.set(s("shell"), u64::MAX);
    let text = save(&st);
    assert!(!text.is_empty());
    let back = load(&text);
    assert_eq!(back.len(), 3);
    assert_eq!(back.get(&s("editor")), 120);
    assert_eq!(back.get(&s("browser \"x\" \\ é")), 7);
    assert_eq!(back.get(&s("shell")), u64::MAX);
}

#[test]
fn empty_state_round_trips() {
    let text = save(&ActivityState::new());
    assert_eq!(text, "{}");
    assert_eq!(load(&text).len(), 0);
}

#[test]
fn uptime_never_decreases() {
    let mut t = Tracker::new(load("{\"A\":5}"), 10_000);
    let mut last = t.state().get(&s("A"));
    for now in [11_000u64, 9_000, 9_500, 20_000, 19_000] {
        t.tick(now, Some(s("A")));
        let cur = t.state().get(&s("A"));
        assert!(cur >= last);
        last = cur;
    }
    assert_eq!(last, 5 + 1 + 0 + 0 + 10 + 0);
}

#[test]
fn startup_merge_adds_to_stored_totals() {
    let mut t = Tracker::new(load("{\"A\": 50}"), 0);
    let text = t.tick(10_000, Some(s("A"))).unwrap();
    let back = load(&text);
    assert_eq!(back.len(), 1);
    assert_eq!(back.get(&s("A")), 60);
}

#[test]
fn corrupt_store_loads_empty() {
    for text in ["", "not json", "{\"A\": 5", "{\"A\": -3}", "[1, 2]", "{\"A\": \"x\"}", "{\"A\": 1.5}"] {
        assert_eq!(load(text).len(), 0, "{text}");
    }
}

#[test]
fn backward_clock_attributes_zero() {
    assert_eq!(elapsed_secs(5000, 2000), 0);
    assert_eq!(elapsed_secs(2000, 5000), 3);
    assert_eq!(elapsed_secs(1000, 2999), 1);
    assert_eq!(elapsed_secs(0, 999), 0);
    let mut t = Tracker::new(ActivityState::new(), 50_000);
    t.tick(40_000, Some(s("A")));
    assert_eq!(t.state().get(&s("A")), 0);
    assert_eq!(t.last_tick_ms(), 40_000);
    t.tick(42_000, Some(s("A")));
    assert_eq!(t.state().get(&s("A")), 2);
}

#[test]
fn two_open_viewer_signals_give_two_launches() {
    let ev = vec![ControlEvent::OpenViewer, ControlEvent::OpenViewer];
    assert_eq!(plan_intake(&ev), IntakePlan { launches: 2, quit: false });
}

#[test]
fn quit_stops_the_drain() {
    let ev = vec![ControlEvent::OpenViewer, ControlEvent::Quit, ControlEvent::OpenViewer];
    assert_eq!(plan_intake(&ev), IntakePlan { launches: 1, quit: true });
    assert_eq!(plan_intake(&vec![]), IntakePlan { launches: 0, quit: false });
    assert_eq!(plan_intake(&vec![ControlEvent::Quit]), IntakePlan { launches: 0, quit: true });
}

#[test]
fn credit_saturates_at_the_largest_total() {
    let mut st = ActivityState::new();
    st.set(s("A"), u64::MAX - 1);
    st.credit(s("A"), 5);
    assert_eq!(st.get(&s("A")), u64::MAX);
    st.credit(s("B"), 3);
    assert_eq!(st.get(&s("B")), 3);
    assert_eq!(st.get(&s("C")), 0);
}

#[test]
fn set_replaces_an_existing_identity() {
    let mut st = ActivityState::new();
    st.set(s("A"), 1);
    st.set(s("B"), 2);
    st.set(s("A"), 9);
    assert_eq!(st.len(), 2);
    assert_eq!(st.get(&s("A")), 9);
    assert_eq!(st.entries().len(), 2);
}

#[test]
fn format_time_examples() {
    assert_eq!(format_time(0), "0s");
    assert_eq!(format_time(59), "59s");
    assert_eq!(format_time(60), "1m 0s");
    assert_eq!(format_time(3599), "59m 59s");
    assert_eq!(format_time(3600), "1h 0m 0s");
    assert_eq!(format_time(3661), "1h 1m 1s");
    assert_eq!(format_time(90061), "25h 1m 1s");
    assert_eq!(format_time(u64::MAX), "5124095576030431h 0m 15s");
}

#[test]
fn label_joins_name_and_time() {
    assert_eq!(label(&s("code.exe"), 125), "code.exe: 2m 5s");
}

#[test]
fn viewer_rows_most_first() {
    let app = ProcessUptimeApp::new("{\"a\": 3, \"b\": 100, \"c\": 0, \"d\": 42}");
    let rows = app.rows();
    let names: Vec<&str> = rows.iter().map(|r| r.0.as_str()).collect();
    assert_eq!(names, vec!["b", "d", "a", "c"]);
    assert_eq!(rows[0].1, 100);
    assert_eq!(ProcessUptimeApp::new("garbage").rows().len(), 0);
}

