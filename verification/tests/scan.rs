use port_scanner::collect::sort_ports;
use port_scanner::report::{no_open_ports_report, render_report, report_line, scan_report, u16_to_string};
use port_scanner::request::{end_port_guard, start_port_guard, ScanRequest};

/// Simulate a scan against a mock target: every port of the request's range
/// is probed, the ones in `open` report back, and the reports arrive in the
/// order given by `complete` applied to the probe order.
fn simulate_scan(req: &ScanRequest, open: &[u16], complete: impl Fn(Vec<u16>) -> Vec<u16>) -> Vec<String> {
    let mut reports: Vec<u16> = Vec::new();
    for p in req.ports_to_probe() {
        if open.contains(&p) {
            reports.push(p);
        }
    }
    scan_report(complete(reports))
}

#[test]
fn start_guard_rejects_zero() {
    assert!(!start_port_guard(&0));
    assert!(start_port_guard(&1));
    assert!(start_port_guard(&65535));
}

#[test]
fn end_guard_bounds() {
    // an end port of 0 is a valid (empty-range) bound
    assert!(end_port_guard(&0));
    assert!(end_port_guard(&1));
    assert!(end_port_guard(&80));
    assert!(end_port_guard(&65535));
}

#[test]
fn ports_to_probe_small_range() {
    let req = ScanRequest::new(String::from("127.0.0.1"), 1, 5);
    assert_eq!(req.ports_to_probe(), vec![1, 2, 3, 4]);
}

#[test]
fn ports_to_probe_excludes_upper_bound() {
    let req = ScanRequest::new(String::from("127.0.0.1"), 65530, 65535);
    assert_eq!(req.ports_to_probe(), vec![65530, 65531, 65532, 65533, 65534]);
}

#[test]
fn ports_to_probe_empty_range() {
    let req = ScanRequest::new(String::from("127.0.0.1"), 50, 50);
    assert_eq!(req.ports_to_probe(), Vec::<u16>::new());
    let req = ScanRequest::new(String::from("127.0.0.1"), 80, 20);
    assert_eq!(req.ports_to_probe(), Vec::<u16>::new());
    // an end port of 0 passes the guard and yields an empty scan
    assert!(end_port_guard(&0));
    let req = ScanRequest::new(String::from("127.0.0.1"), 1, 0);
    assert_eq!(req.ports_to_probe(), Vec::<u16>::new());
}

#[test]
fn sort_orders_ascending() {
    let sorted = sort_ports(vec![8080, 22, 80]);
    assert_eq!(sorted, vec![22, 80, 8080]);
}

#[test]
fn sort_result_independent_of_arrival_order() {
    let forward = sort_ports(vec![22, 80, 443, 8080]);
    let reverse = sort_ports(vec![8080, 443, 80, 22]);
    let shuffled = sort_ports(vec![443, 22, 8080, 80]);
    assert_eq!(forward, vec![22, 80, 443, 8080]);
    assert_eq!(reverse, forward);
    assert_eq!(shuffled, forward);
}

#[test]
fn decimal_formatting() {
    assert_eq!(u16_to_string(0), "0");
    assert_eq!(u16_to_string(7), "7");
    assert_eq!(u16_to_string(22), "22");
    assert_eq!(u16_to_string(8080), "8080");
    assert_eq!(u16_to_string(65535), "65535");
}

#[test]
fn open_port_line() {
    assert_eq!(report_line(22), "22 is Open");
    assert_eq!(report_line(8080), "8080 is Open");
}

#[test]
fn no_open_ports_line_text() {
    assert_eq!(no_open_ports_report(), "No open ports found");
}

#[test]
fn render_empty_result() {
    let lines = render_report(&Vec::new());
    assert_eq!(lines, vec![String::from("No open ports found")]);
}

#[test]
fn render_open_ports() {
    let lines = render_report(&vec![22, 8080]);
    assert_eq!(lines, vec![String::from("22 is Open"), String::from("8080 is Open")]);
}

#[test]
fn scenario_two_open_ports_full_range() {
    let req = ScanRequest::new(String::from("127.0.0.1"), 1, 65535);
    let lines = simulate_scan(&req, &[22, 8080], |r| r);
    assert_eq!(lines, vec![String::from("22 is Open"), String::from("8080 is Open")]);
}

#[test]
fn scenario_two_open_ports_reversed_completion() {
    let req = ScanRequest::new(String::from("127.0.0.1"), 1, 65535);
    let lines = simulate_scan(&req, &[22, 8080], |mut r| {
        r.reverse();
        r
    });
    assert_eq!(lines, vec![String::from("22 is Open"), String::from("8080 is Open")]);
}

#[test]
fn scenario_no_open_ports() {
    let req = ScanRequest::new(String::from("127.0.0.1"), 1, 100);
    let lines = simulate_scan(&req, &[], |r| r);
    assert_eq!(lines, vec![String::from("No open ports found")]);
}

#[test]
fn scenario_empty_range_ignores_target() {
    let req = ScanRequest::new(String::from("127.0.0.1"), 50, 50);
    let lines = simulate_scan(&req, &[22, 50, 8080], |r| r);
    assert_eq!(lines, vec![String::from("No open ports found")]);
}

#[test]
fn scenario_scan_twice_same_result() {
    let req = ScanRequest::new(String::from("127.0.0.1"), 1, 9000);
    let first = simulate_scan(&req, &[443, 22, 8080], |r| r);
    let second = simulate_scan(&req, &[443, 22, 8080], |mut r| {
        r.reverse();
        r
    });
    assert_eq!(first, second);
    assert_eq!(
        first,
        vec![
            String::from("22 is Open"),
            String::from("443 is Open"),
            String::from("8080 is Open"),
        ]
    );
}

#[test]
fn result_subset_of_range() {
    let req = ScanRequest::new(String::from("127.0.0.1"), 20, 100);
    let lines = simulate_scan(&req, &[22, 8080, 19, 99, 100], |r| r);
    assert_eq!(lines, vec![String::from("22 is Open"), String::from("99 is Open")]);
}
