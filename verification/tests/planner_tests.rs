use lts_ingest::config::{queue_check_interval_ms, EtcLqos};
use lts_ingest::hosts::{get_unknown_ips, DownUp, HostRow};
use lts_ingest::queues::{track_queues, QueueReadConfig, WatchedQueue};

#[test]
fn interval_comes_from_config_or_defaults_to_one_second() {
    let cfg = EtcLqos {
        lqos_directory: "/opt/libreqos".to_string(),
        queue_check_period_ms: 250,
        bridge: None,
        tuning: None,
    };
    assert_eq!(queue_check_interval_ms(Some(&cfg)), 250);
    assert_eq!(queue_check_interval_ms(None), 1000);
}

#[test]
fn on_a_stick_reads_both_directions_from_the_internet_interface() {
    let watching = vec![WatchedQueue {
        circuit_id: "c1".to_string(),
        download_class: 5,
        upload_class: 6,
    }];
    let cfg = QueueReadConfig {
        on_a_stick_mode: true,
        internet_interface: "eth0".to_string(),
        isp_interface: "eth1".to_string(),
    };
    let plans = track_queues(&watching, &cfg);
    assert_eq!(plans.len(), 1);
    assert_eq!(plans[0].circuit_id, "c1");
    assert_eq!(plans[0].download_interface, "eth0");
    assert_eq!(plans[0].download_class, 5);
    assert_eq!(plans[0].upload_interface, "eth0");
    assert_eq!(plans[0].upload_class, 6);
}

#[test]
fn split_interfaces_read_the_download_class_on_each_side() {
    let watching = vec![
        WatchedQueue { circuit_id: "c1".to_string(), download_class: 5, upload_class: 6 },
        WatchedQueue { circuit_id: "c2".to_string(), download_class: 7, upload_class: 8 },
    ];
    let cfg = QueueReadConfig {
        on_a_stick_mode: false,
        internet_interface: "eth0".to_string(),
        isp_interface: "eth1".to_string(),
    };
    let plans = track_queues(&watching, &cfg);
    assert_eq!(plans.len(), 2);
    assert_eq!(plans[0].download_interface, "eth1");
    assert_eq!(plans[0].download_class, 5);
    assert_eq!(plans[0].upload_interface, "eth0");
    assert_eq!(plans[0].upload_class, 5);
    assert_eq!(plans[1].circuit_id, "c2");
    assert_eq!(plans[1].download_class, 7);
    assert_eq!(plans[1].upload_class, 7);
}

#[test]
fn no_watched_queues_gives_no_plans() {
    let cfg = QueueReadConfig {
        on_a_stick_mode: true,
        internet_interface: "eth0".to_string(),
        isp_interface: "eth1".to_string(),
    };
    assert!(track_queues(&vec![], &cfg).is_empty());
}

fn host(ip: &str, is_loopback: bool, tc_handle: u32, is_shaped: bool, last_seen: u64) -> HostRow {
    HostRow {
        ip: ip.to_string(),
        is_loopback,
        tc_handle,
        is_shaped,
        last_seen,
        total_bytes: DownUp { down: 1000, up: 2000 },
        current_bytes: DownUp { down: 10, up: 20 },
    }
}

#[test]
fn unknown_ips_filters_and_ages_rows() {
    let rows = vec![
        host("127.0.0.1", true, 0, false, 50),
        host("10.0.0.2", false, 3, false, 60),
        host("10.0.0.3", false, 0, true, 70),
        host("203.0.113.9", false, 0, false, 80),
    ];
    let report = get_unknown_ips(100, &rows);
    assert_eq!(report.len(), 1);
    assert_eq!(report[0].ip, "203.0.113.9");
    assert_eq!(report[0].last_seen_nanos, 20);
    assert_eq!(report[0].total_bytes, DownUp { down: 1000, up: 2000 });
    assert_eq!(report[0].current_bytes, DownUp { down: 10, up: 20 });
}

#[test]
fn unknown_ips_keeps_row_order() {
    let rows = vec![
        host("10.1.0.1", false, 0, false, 10),
        host("10.1.0.2", false, 0, false, 20),
    ];
    let report = get_unknown_ips(30, &rows);
    assert_eq!(report.len(), 2);
    assert_eq!(report[0].ip, "10.1.0.1");
    assert_eq!(report[0].last_seen_nanos, 20);
    assert_eq!(report[1].ip, "10.1.0.2");
    assert_eq!(report[1].last_seen_nanos, 10);
}
