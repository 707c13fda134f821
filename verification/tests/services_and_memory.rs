use pc_booster::service_list::{count_with_status, position_of_name, sort_services};
use pc_booster::service_manager::{
    description_probe_proceeds, description_text, enumeration_step, is_running_state,
    not_stoppable_message, pid_label, should_show, status_label, status_tone, stop_plan,
    EnumerationStep, ServiceInfo, StatusTone, StopPlan,
};
use pc_booster::system_info::SystemInfo;

fn svc(name: &str, status: &str) -> ServiceInfo {
    ServiceInfo {
        name: name.to_string(),
        display_name: format!("{} display", name),
        status: status.to_string(),
        process_id: None,
        description: None,
    }
}

#[test]
fn status_labels() {
    assert_eq!(status_label(4), "Running");
    assert_eq!(status_label(1), "Stopped");
    assert_eq!(status_label(2), "Starting");
    assert_eq!(status_label(3), "Stopping");
    assert_eq!(status_label(7), "Unknown");
    assert_eq!(status_label(0), "Unknown");
    assert!(is_running_state(4));
    assert!(!is_running_state(1));
}

#[test]
fn from_status_keeps_pid_only_while_running() {
    let running = ServiceInfo::from_status("Fax".to_string(), "Fax service".to_string(), 4, 1234);
    assert_eq!(running.name, "Fax");
    assert_eq!(running.display_name, "Fax service");
    assert_eq!(running.status, "Running");
    assert_eq!(running.process_id, Some(1234));
    assert_eq!(running.description, None);
    let stopped = ServiceInfo::from_status("Fax".to_string(), "Fax service".to_string(), 1, 1234);
    assert_eq!(stopped.status, "Stopped");
    assert_eq!(stopped.process_id, None);
    let pending = ServiceInfo::from_status("A".to_string(), "B".to_string(), 3, 9);
    assert_eq!(pending.status, "Stopping");
    assert_eq!(pending.process_id, None);
}

#[test]
fn attach_description_keeps_old_on_error() {
    let mut s = svc("Fax", "Stopped");
    s.attach_description(Err("denied".to_string()));
    assert_eq!(s.description, None);
    s.attach_description(Ok("Sends faxes".to_string()));
    assert_eq!(s.description, Some("Sends faxes".to_string()));
    s.attach_description(Err("denied".to_string()));
    assert_eq!(s.description, Some("Sends faxes".to_string()));
}

#[test]
fn enumeration_and_description_decisions() {
    assert_eq!(enumeration_step(true, 0), EnumerationStep::Done);
    assert_eq!(enumeration_step(true, 234), EnumerationStep::Done);
    assert_eq!(enumeration_step(false, 234), EnumerationStep::GrowBuffer);
    assert_eq!(enumeration_step(false, 5), EnumerationStep::Fail);
    assert!(description_probe_proceeds(true, 0));
    assert!(description_probe_proceeds(false, 122));
    assert!(!description_probe_proceeds(false, 5));
    assert_eq!(description_text(String::new()), "No description available");
    assert_eq!(description_text("Indexes files".to_string()), "Indexes files");
}

#[test]
fn stop_plans() {
    assert_eq!(stop_plan(1, 0), StopPlan::AlreadyStopped);
    assert_eq!(stop_plan(1, 1), StopPlan::AlreadyStopped);
    assert_eq!(stop_plan(4, 0), StopPlan::NotStoppable);
    assert_eq!(stop_plan(4, 2), StopPlan::NotStoppable);
    assert_eq!(stop_plan(4, 1), StopPlan::SendStop);
    assert_eq!(stop_plan(2, 3), StopPlan::SendStop);
    assert_eq!(not_stoppable_message("WSearch"), "Service 'WSearch' does not accept stop commands");
}

#[test]
fn listing_filters_and_pids() {
    let running = "Running".to_string();
    let stopped = "Stopped".to_string();
    assert!(should_show(&running, true, false));
    assert!(!should_show(&stopped, true, false));
    assert!(should_show(&stopped, false, true));
    assert!(!should_show(&running, false, true));
    assert!(should_show(&running, true, true));
    assert!(!should_show(&stopped, true, true));
    assert!(should_show(&stopped, false, false));
    assert_eq!(pid_label(Some(4321)), "4321");
    assert_eq!(pid_label(Some(0)), "0");
    assert_eq!(pid_label(None), "-");
}

fn std_sort_by(mut v: Vec<ServiceInfo>) -> Vec<ServiceInfo> {
    v.sort_by(|a, b| {
        let a_running = a.status == "Running";
        let b_running = b.status == "Running";
        if a_running && !b_running {
            std::cmp::Ordering::Less
        } else if !a_running && b_running {
            std::cmp::Ordering::Greater
        } else {
            a.name.cmp(&b.name)
        }
    });
    v
}

#[test]
fn sort_matches_running_first_then_name() {
    let mut input = vec![
        svc("WSearch", "Stopped"),
        svc("Fax", "Running"),
        svc("Audio", "Stopped"),
        svc("Zeta", "Running"),
        svc("audio", "Starting"),
        svc("Fax", "Stopped"),
        svc("Bits", "Running"),
    ];
    input[5].display_name = "second Fax".to_string();
    let sorted = sort_services(input.clone());
    let names: Vec<(String, String)> =
        sorted.iter().map(|s| (s.name.clone(), s.status.clone())).collect();
    assert_eq!(
        names,
        vec![
            ("Bits".to_string(), "Running".to_string()),
            ("Fax".to_string(), "Running".to_string()),
            ("Zeta".to_string(), "Running".to_string()),
            ("Audio".to_string(), "Stopped".to_string()),
            ("Fax".to_string(), "Stopped".to_string()),
            ("WSearch".to_string(), "Stopped".to_string()),
            ("audio".to_string(), "Starting".to_string()),
        ]
    );
    let expected = std_sort_by(input);
    let got: Vec<(String, String, String)> =
        sorted.iter().map(|s| (s.name.clone(), s.status.clone(), s.display_name.clone())).collect();
    let want: Vec<(String, String, String)> =
        expected.iter().map(|s| (s.name.clone(), s.status.clone(), s.display_name.clone())).collect();
    assert_eq!(got, want);
}

#[test]
fn sort_is_stable_for_equal_ranks() {
    let mut a = svc("Same", "Stopped");
    a.display_name = "first".to_string();
    let mut b = svc("Same", "Unknown");
    b.display_name = "second".to_string();
    let sorted = sort_services(vec![a, b]);
    assert_eq!(sorted[0].display_name, "first");
    assert_eq!(sorted[1].display_name, "second");
}

#[test]
fn counting_and_position() {
    let v = vec![svc("A", "Running"), svc("B", "Stopped"), svc("C", "Running"), svc("B", "Running")];
    assert_eq!(count_with_status(&v, "Running"), 3);
    assert_eq!(count_with_status(&v, "Stopped"), 1);
    assert_eq!(count_with_status(&v, "Starting"), 0);
    assert_eq!(position_of_name(&v, "B"), Some(1));
    assert_eq!(position_of_name(&v, "C"), Some(2));
    assert_eq!(position_of_name(&v, "D"), None);
}

fn float_format_memory(bytes: u64) -> String {
    const GB: u64 = 1024 * 1024 * 1024;
    const MB: u64 = 1024 * 1024;
    if bytes >= GB {
        format!("{:.2} GB", bytes as f64 / GB as f64)
    } else if bytes >= MB {
        format!("{:.2} MB", bytes as f64 / MB as f64)
    } else {
        format!("{} KB", bytes / 1024)
    }
}

#[test]
fn format_memory_exact_values() {
    assert_eq!(SystemInfo::format_memory(0), "0 KB");
    assert_eq!(SystemInfo::format_memory(1023), "0 KB");
    assert_eq!(SystemInfo::format_memory(2048), "2 KB");
    assert_eq!(SystemInfo::format_memory(1048575), "1023 KB");
    assert_eq!(SystemInfo::format_memory(1048576), "1.00 MB");
    assert_eq!(SystemInfo::format_memory(1572864), "1.50 MB");
    assert_eq!(SystemInfo::format_memory(1073741824), "1.00 GB");
    assert_eq!(SystemInfo::format_memory(17179869184), "16.00 GB");
    assert_eq!(SystemInfo::format_memory(8589934592 + 536870912), "8.50 GB");
    assert_eq!(SystemInfo::format_memory(u64::MAX), "17179869184.00 GB");
}

#[test]
fn format_memory_matches_float_formatting() {
    let gb: u64 = 1 << 30;
    let mb: u64 = 1 << 20;
    let mut samples: Vec<u64> = vec![0, 1, 1023, 1024, mb - 1, mb, mb + 1, gb - 1, gb, gb + 1];
    // ties: x.xx5 exactly representable values
    for k in 0u64..400 {
        samples.push(mb + k * (mb / 400));
        samples.push(gb + k * (gb / 400));
        samples.push(mb * 3 + (k * mb) / 200 + mb / 400);
        samples.push(gb * 7 + (k * gb) / 200 + gb / 400);
        samples.push((1u64 << 53) + k);
        samples.push((1u64 << 60) + k * 12345);
        samples.push(u64::MAX - k);
    }
    let mut x: u64 = 0x9E3779B97F4A7C15;
    for _ in 0..20000 {
        x ^= x << 13;
        x ^= x >> 7;
        x ^= x << 17;
        samples.push(x);
        samples.push(x >> 20);
        samples.push(x >> 33);
        samples.push(x >> 40);
    }
    for b in samples {
        assert_eq!(SystemInfo::format_memory(b), float_format_memory(b), "bytes = {}", b);
    }
}

#[test]
fn system_info_reads_memory() {
    let mut info = SystemInfo::new();
    let total = info.total_memory();
    let _ = info.used_memory();
    let _ = info.available_memory();
    let _ = info.free_memory();
    info.refresh();
    assert_eq!(info.total_memory(), info.total_memory());
    assert!(total > 0);
    assert!(info.total_memory() > 0);
}

#[test]
fn status_tones_and_description_labels() {
    assert_eq!(status_tone(&"Running".to_string()), StatusTone::Good);
    assert_eq!(status_tone(&"Stopped".to_string()), StatusTone::Bad);
    assert_eq!(status_tone(&"Starting".to_string()), StatusTone::Pending);
    assert_eq!(status_tone(&"Stopping".to_string()), StatusTone::Pending);
    assert_eq!(status_tone(&"Unknown".to_string()), StatusTone::Plain);
    let mut s = svc("Fax", "Stopped");
    assert_eq!(s.description_label(), "No description");
    s.description = Some("Sends faxes".to_string());
    assert_eq!(s.description_label(), "Sends faxes");
}
