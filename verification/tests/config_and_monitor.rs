use pc_booster::config::{Blacklist, Config};
use pc_booster::monitor::{monitor_step, parse_service_list, MonitorStep};

#[test]
fn blacklist_insert_and_contains() {
    let mut b = Blacklist::new();
    assert!(b.is_empty());
    assert!(b.insert("WSearch".to_string()));
    assert!(b.insert("SysMain".to_string()));
    assert!(!b.insert("WSearch".to_string()));
    assert_eq!(b.len(), 2);
    assert!(b.contains("WSearch"));
    assert!(b.contains("SysMain"));
    assert!(!b.contains("DiagTrack"));
    assert_eq!(b.names(), vec!["WSearch".to_string(), "SysMain".to_string()]);
}

#[test]
fn blacklist_remove_reports_membership() {
    let mut b = Blacklist::new();
    b.insert("WSearch".to_string());
    b.insert("SysMain".to_string());
    b.insert("DiagTrack".to_string());
    assert!(b.remove("SysMain"));
    assert!(!b.remove("SysMain"));
    assert!(!b.contains("SysMain"));
    assert_eq!(b.names(), vec!["WSearch".to_string(), "DiagTrack".to_string()]);
    assert!(!b.remove("Fax"));
    assert_eq!(b.len(), 2);
}

#[test]
fn blacklist_remove_undoes_fresh_insert() {
    let mut b = Blacklist::new();
    b.insert("A".to_string());
    b.insert("B".to_string());
    let before = b.names();
    b.insert("C".to_string());
    b.remove("C");
    assert_eq!(b.names(), before);
}

#[test]
fn config_from_names_deduplicates() {
    let c = Config::from_names(vec![
        "WSearch".to_string(),
        "Fax".to_string(),
        "WSearch".to_string(),
    ]);
    assert_eq!(c.blacklisted_services.len(), 2);
    assert!(c.blacklisted_services.contains("Fax"));
    assert!(Config::new().blacklisted_services.is_empty());
}

fn std_split_trim(services_str: &str) -> Vec<String> {
    services_str
        .split(',')
        .map(|s| s.trim().to_string())
        .filter(|s| !s.is_empty())
        .collect()
}

#[test]
fn parse_service_list_matches_split_trim_filter() {
    for s in [
        "WSearch,SysMain,DiagTrack",
        " WSearch , SysMain ,, DiagTrack ,",
        "",
        ",,,",
        "  ",
        "one",
        "\tA\u{3000},\u{85}B",
        "Windows Search, Print Spooler",
    ]
    .iter()
    {
        assert_eq!(parse_service_list(s), std_split_trim(s), "{:?}", s);
    }
    assert_eq!(
        parse_service_list("WSearch, SysMain"),
        vec!["WSearch".to_string(), "SysMain".to_string()]
    );
}

#[test]
fn service_list_round_trip() {
    let names = vec!["WSearch".to_string(), "Print Spooler".to_string(), "Fax".to_string()];
    assert_eq!(parse_service_list(&names.join(",")), names);
}

#[test]
fn monitor_decisions() {
    assert_eq!(monitor_step(&Ok(true)), MonitorStep::StopService);
    assert_eq!(monitor_step(&Ok(false)), MonitorStep::LeaveAlone);
    assert_eq!(monitor_step(&Err("no access".to_string())), MonitorStep::ReportError);
}

#[test]
fn config_from_names_keeps_first_occurrences_in_order() {
    let c = Config::from_names(vec![
        "Fax".to_string(),
        "WSearch".to_string(),
        "Fax".to_string(),
        "SysMain".to_string(),
    ]);
    assert_eq!(
        c.blacklisted_services.names(),
        vec!["Fax".to_string(), "WSearch".to_string(), "SysMain".to_string()]
    );
}
