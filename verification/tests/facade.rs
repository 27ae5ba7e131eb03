use statuspage::aggregate::{average_uptime, overall_status};
use statuspage::{
    build_detail_context, build_index_context, Incident, Service, StatusKind, Timestamp,
};

fn ts() -> Timestamp {
    Timestamp { year: 2024, month: 1, day: 2, hour: 3, minute: 4, second: 5 }
}

fn service(id: &str, online: bool, raw: Vec<i32>) -> Service {
    Service {
        id: id.to_string(),
        name: format!("service {id}"),
        server_url: format!("https://{id}.example"),
        response_times: raw,
        is_online: online,
    }
}

#[test]
fn overall_status_of_no_services_is_up() {
    assert_eq!(overall_status(&vec![]), StatusKind::Up);
}

#[test]
fn overall_status_classifies_the_fleet() {
    let up = service("a", true, vec![5]);
    let down = service("b", false, vec![0]);
    assert_eq!(overall_status(&vec![up.clone()]), StatusKind::Up);
    assert_eq!(overall_status(&vec![down.clone()]), StatusKind::Down);
    assert_eq!(overall_status(&vec![up, down]), StatusKind::Partial);
}

#[test]
fn average_uptime_of_no_services_is_full_health() {
    assert_eq!(average_uptime(&vec![], 1440), 10000);
}

#[test]
fn average_uptime_averages_over_services() {
    let a = service("a", true, vec![5, 5, 0, 5]);
    let b = service("b", true, vec![5]);
    // 75.00% and 100.00% average to 87.50%.
    assert_eq!(average_uptime(&vec![a, b], 1440), 8750);
}

#[test]
fn index_context_carries_all_rows() {
    let services = vec![
        service("a", true, vec![5, 5, 0, 5]),
        service("b", false, vec![0, 0]),
    ];
    let incidents = vec![Incident {
        id: 1,
        service_id: "b".to_string(),
        service_name: "service b".to_string(),
        start_time: ts(),
        end_time: None,
        description: "unreachable".to_string(),
    }];
    let c = build_index_context(&services, &incidents, ts());
    assert_eq!(c.status, StatusKind::Partial);
    assert_eq!(c.services.len(), 2);
    assert_eq!(c.services[0].id, "a");
    assert_eq!(c.services[0].uptime, "75.00");
    assert_eq!(c.services[0].status.len(), 90);
    assert_eq!(c.services[1].uptime, "0.00");
    assert_eq!(c.situations.len(), 1);
    assert_eq!(c.situations[0].service_name, "service b");
    assert_eq!(c.situations[0].start_time, "2024-01-02 03:04:05 UTC");
    assert_eq!(c.situations[0].description, "unreachable");
    assert_eq!(c.uptime_24h, "37.50");
    assert_eq!(c.load_time, "2024-01-02 03:04:05 UTC");
}

#[test]
fn index_context_of_empty_store_looks_healthy() {
    let c = build_index_context(&vec![], &vec![], ts());
    assert_eq!(c.status, StatusKind::Up);
    assert_eq!(c.services.len(), 0);
    assert_eq!(c.situations.len(), 0);
    assert_eq!(c.uptime_24h, "100.00");
    assert_eq!(c.uptime_7d, "100.00");
    assert_eq!(c.uptime_30d, "100.00");
    assert_eq!(c.uptime_90d, "100.00");
}

#[test]
fn aggregation_twice_is_byte_identical() {
    let services = vec![
        service("a", true, vec![5, 5, 0, 5, 120, 80, 0, 44]),
        service("b", false, vec![0, 0, 9]),
    ];
    let incidents = vec![Incident {
        id: 7,
        service_id: "a".to_string(),
        service_name: "service a".to_string(),
        start_time: ts(),
        end_time: Some(ts()),
        description: "slow responses".to_string(),
    }];
    let c1 = build_index_context(&services, &incidents, ts());
    let c2 = build_index_context(&services, &incidents, ts());
    assert_eq!(c1.status, c2.status);
    assert_eq!(c1.services.len(), c2.services.len());
    for (e1, e2) in c1.services.iter().zip(c2.services.iter()) {
        assert_eq!(e1.id, e2.id);
        assert_eq!(e1.name, e2.name);
        assert_eq!(e1.uptime, e2.uptime);
        assert_eq!(e1.status.len(), e2.status.len());
        for (s1, s2) in e1.status.iter().zip(e2.status.iter()) {
            assert_eq!(s1.kind, s2.kind);
            assert_eq!(s1.description, s2.description);
        }
    }
    assert_eq!(c1.situations.len(), c2.situations.len());
    for (i1, i2) in c1.situations.iter().zip(c2.situations.iter()) {
        assert_eq!(i1.service_name, i2.service_name);
        assert_eq!(i1.start_time, i2.start_time);
        assert_eq!(i1.description, i2.description);
    }
    assert_eq!(c1.uptime_24h, c2.uptime_24h);
    assert_eq!(c1.uptime_7d, c2.uptime_7d);
    assert_eq!(c1.uptime_30d, c2.uptime_30d);
    assert_eq!(c1.uptime_90d, c2.uptime_90d);
    assert_eq!(c1.load_time, c2.load_time);

    let d1 = build_detail_context(&services, &"a".to_string(), ts()).unwrap();
    let d2 = build_detail_context(&services, &"a".to_string(), ts()).unwrap();
    assert_eq!(d1.uptime_24h, d2.uptime_24h);
    assert_eq!(d1.graph.points.len(), d2.graph.points.len());
    for (p1, p2) in d1.graph.points.iter().zip(d2.graph.points.iter()) {
        assert_eq!(p1, p2);
    }
    assert_eq!(d1.graph.y_axis_steps, d2.graph.y_axis_steps);
}

#[test]
fn detail_context_for_unknown_id_is_not_found() {
    let services = vec![service("a", true, vec![5])];
    assert!(build_detail_context(&services, &"nope".to_string(), ts()).is_none());
}

#[test]
fn detail_context_carries_the_service_and_its_graph() {
    let services = vec![
        service("a", true, vec![100, 200, 300]),
        service("b", true, vec![5]),
    ];
    let c = build_detail_context(&services, &"a".to_string(), ts()).unwrap();
    assert_eq!(c.service.id, "a");
    assert_eq!(c.service.name, "service a");
    assert_eq!(c.service.response_times, vec![100, 200, 300]);
    assert_eq!(c.status.len(), 90);
    assert_eq!(c.uptime_24h, "100.00");
    assert_eq!(c.uptime_90d, "100.00");
    assert_eq!(c.graph.y_axis_steps, vec![150, 175, 200, 225, 250]);
    assert_eq!(c.graph.max_response, 300);
    assert_eq!(c.graph.min_response, 100);
    assert_eq!(c.graph.avg_response, 200);
    assert_eq!(c.load_time, "2024-01-02 03:04:05 UTC");
}

#[test]
fn detail_context_picks_the_first_matching_service() {
    let services = vec![
        service("a", true, vec![0, 0]),
        service("a", true, vec![5]),
    ];
    let c = build_detail_context(&services, &"a".to_string(), ts()).unwrap();
    assert_eq!(c.uptime_24h, "0.00");
}
