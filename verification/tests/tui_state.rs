use pc_booster::service_manager::ServiceInfo;
use pc_booster::tui::{should_quit, AppState, Key, KeyAction, NetworkWatch, WatchStep};

fn svc(name: &str, status: &str) -> ServiceInfo {
    ServiceInfo {
        name: name.to_string(),
        display_name: name.to_string(),
        status: status.to_string(),
        process_id: None,
        description: None,
    }
}

fn many(n: usize) -> Vec<ServiceInfo> {
    (0..n).map(|i| svc(&format!("S{:03}", i), "Stopped")).collect()
}

#[test]
fn new_state_sorts_and_defaults() {
    let st = AppState::new(Ok(vec![svc("B", "Stopped"), svc("A", "Stopped"), svc("C", "Running")]));
    let names: Vec<&str> = st.services.iter().map(|s| s.name.as_str()).collect();
    assert_eq!(names, vec!["C", "A", "B"]);
    assert_eq!(st.selected_index, 0);
    assert_eq!(st.scroll_offset, 0);
    assert!(st.status_message.is_none());
    assert!(st.network_protection_enabled);
    let empty = AppState::new(Err("failed".to_string()));
    assert!(empty.services.is_empty());
}

#[test]
fn up_and_down_move_and_scroll() {
    let mut st = AppState::new(Ok(many(30)));
    assert!(matches!(st.handle_key(Key::Up), KeyAction::Nothing));
    assert_eq!(st.selected_index, 0);
    for _ in 0..19 {
        st.handle_key(Key::Down);
    }
    assert_eq!((st.selected_index, st.scroll_offset), (19, 0));
    st.handle_key(Key::Down);
    assert_eq!((st.selected_index, st.scroll_offset), (20, 1));
    for _ in 0..20 {
        st.handle_key(Key::Down);
    }
    assert_eq!((st.selected_index, st.scroll_offset), (29, 10));
    for _ in 0..10 {
        st.handle_key(Key::Up);
    }
    assert_eq!((st.selected_index, st.scroll_offset), (19, 10));
    st.handle_key(Key::Up);
    assert_eq!((st.selected_index, st.scroll_offset), (18, 10));
    for _ in 0..9 {
        st.handle_key(Key::Up);
    }
    assert_eq!((st.selected_index, st.scroll_offset), (9, 9));
}

#[test]
fn page_keys_saturate() {
    let mut st = AppState::new(Ok(many(25)));
    st.handle_key(Key::PageDown);
    assert_eq!((st.selected_index, st.scroll_offset), (10, 5));
    st.handle_key(Key::PageDown);
    assert_eq!((st.selected_index, st.scroll_offset), (20, 5));
    st.handle_key(Key::PageDown);
    assert_eq!((st.selected_index, st.scroll_offset), (24, 5));
    st.handle_key(Key::PageUp);
    assert_eq!((st.selected_index, st.scroll_offset), (14, 0));
    st.handle_key(Key::PageUp);
    st.handle_key(Key::PageUp);
    assert_eq!((st.selected_index, st.scroll_offset), (0, 0));
    let mut small = AppState::new(Ok(many(3)));
    small.handle_key(Key::PageDown);
    assert_eq!((small.selected_index, small.scroll_offset), (2, 0));
    let mut none = AppState::new(Ok(Vec::new()));
    none.handle_key(Key::PageDown);
    none.handle_key(Key::Down);
    assert_eq!((none.selected_index, none.scroll_offset), (0, 0));
}

#[test]
fn enter_asks_to_stop_or_start() {
    let mut st = AppState::new(Ok(vec![svc("Run", "Running"), svc("Idle", "Stopped")]));
    match st.handle_key(Key::Enter) {
        KeyAction::StopService(n) => assert_eq!(n, "Run"),
        other => panic!("unexpected {:?}", other),
    }
    st.handle_key(Key::Down);
    match st.handle_key(Key::Enter) {
        KeyAction::StartService(n) => assert_eq!(n, "Idle"),
        other => panic!("unexpected {:?}", other),
    }
    let mut empty = AppState::new(Ok(Vec::new()));
    assert!(matches!(empty.handle_key(Key::Enter), KeyAction::Nothing));
}

#[test]
fn quit_refresh_and_protection_keys() {
    let mut st = AppState::new(Ok(many(2)));
    assert!(!should_quit(&st));
    assert!(matches!(st.handle_key(Key::Char('r')), KeyAction::Refresh));
    assert_eq!(st.status_message, None);
    st.record_refresh();
    assert_eq!(st.status_message.as_deref(), Some("Services refreshed"));
    assert!(!should_quit(&st));
    st.handle_key(Key::Char('p'));
    assert!(!st.network_protection_enabled);
    assert_eq!(st.status_message.as_deref(), Some("Network protection disabled"));
    st.handle_key(Key::Char('p'));
    assert!(st.network_protection_enabled);
    assert_eq!(st.status_message.as_deref(), Some("Network protection enabled"));
    st.handle_key(Key::Char('x'));
    assert_eq!(st.status_message.as_deref(), Some("Network protection enabled"));
    st.handle_key(Key::Char('q'));
    assert_eq!(st.status_message.as_deref(), Some("Exiting..."));
    assert!(should_quit(&st));
    let mut other = AppState::new(Ok(many(2)));
    other.handle_key(Key::Esc);
    assert!(should_quit(&other));
}

#[test]
fn refresh_keeps_selected_service() {
    let mut st = AppState::new(Ok(vec![svc("A", "Stopped"), svc("B", "Stopped"), svc("C", "Stopped")]));
    st.handle_key(Key::Down);
    assert_eq!(st.services[st.selected_index].name, "B");
    st.refresh_services(Ok(vec![svc("B", "Running"), svc("A", "Stopped"), svc("C", "Stopped")]));
    assert_eq!(st.services[0].name, "B");
    assert_eq!(st.selected_index, 0);
    st.refresh_services(Err("failed".to_string()));
    assert_eq!(st.services.len(), 3);
    st.selected_index = 2;
    st.refresh_services(Ok(vec![svc("X", "Stopped")]));
    assert_eq!(st.selected_index, 2);
    assert_eq!(st.services.len(), 1);
}

#[test]
fn outcomes_set_messages() {
    let mut st = AppState::new(Ok(many(1)));
    assert!(st.record_stop_outcome("Fax", true, Ok(())));
    assert_eq!(st.status_message.as_deref(), Some("Service 'Fax' stopped"));
    assert!(!st.record_stop_outcome("Fax", false, Ok(())));
    assert!(!st.record_stop_outcome("Fax", true, Err("denied".to_string())));
    assert_eq!(st.status_message.as_deref(), Some("Failed to stop 'Fax': denied"));
    st.handle_key(Key::Char('p'));
    assert!(!st.record_stop_outcome("Fax", true, Ok(())));
    st.record_start_outcome("Fax", Ok(()));
    assert_eq!(st.status_message.as_deref(), Some("Service 'Fax' started"));
    st.record_start_outcome("Fax", Err("busy".to_string()));
    assert_eq!(st.status_message.as_deref(), Some("Failed to start 'Fax': busy"));
    st.record_network_restart("Fax");
    assert_eq!(
        st.status_message.as_deref(),
        Some("Network lost! Service 'Fax' restarted automatically")
    );
}

#[test]
fn footer_counts_services() {
    let mut st = AppState::new(Ok(vec![svc("A", "Running"), svc("B", "Stopped"), svc("C", "Starting")]));
    assert_eq!(st.footer_text(), "Total services: 3 | Running: 1 | Stopped: 1");
    st.set_status_message("hello".to_string());
    assert_eq!(st.footer_text(), "hello");
}

#[test]
fn status_message_expires_after_five_seconds() {
    let mut st = AppState::new(Ok(many(1)));
    st.set_status_message("hello".to_string());
    st.expire_status_message(5, 0);
    assert_eq!(st.status_message.as_deref(), Some("hello"));
    st.expire_status_message(4, 999_999_999);
    assert_eq!(st.status_message.as_deref(), Some("hello"));
    st.expire_status_message(5, 1);
    assert_eq!(st.status_message, None);
    st.set_status_message("again".to_string());
    st.clear_status_message_if_expired();
    assert_eq!(st.status_message.as_deref(), Some("again"));
    st.expire_status_message(6, 0);
    assert_eq!(st.status_message, None);
}

#[test]
fn network_watch_restarts_on_lost_network() {
    let mut w = NetworkWatch::new("Fax".to_string());
    assert!(matches!(w.next_step(), WatchStep::Probe));
    assert!(matches!(w.record_probe(true), WatchStep::Probe));
    match w.record_probe(false) {
        WatchStep::Restart(n) => assert_eq!(n, "Fax"),
        other => panic!("unexpected {:?}", other),
    }
    assert!(matches!(w.next_step(), WatchStep::Finished));
    assert!(matches!(w.record_probe(false), WatchStep::Finished));
}

#[test]
fn network_watch_ends_after_five_good_probes() {
    let mut w = NetworkWatch::new("Fax".to_string());
    for _ in 0..4 {
        assert!(matches!(w.record_probe(true), WatchStep::Probe));
    }
    assert!(matches!(w.record_probe(true), WatchStep::Finished));
    assert!(matches!(w.next_step(), WatchStep::Finished));
}
