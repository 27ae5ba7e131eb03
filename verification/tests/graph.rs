use statuspage::graph::build_graph;
use statuspage::clamp_samples;

#[test]
fn point_count_never_exceeds_the_budget() {
    let raw: Vec<i32> = (1..=100).collect();
    let samples = clamp_samples(&raw);
    let g = build_graph(&samples, 43200, 1440, 30);
    assert!(g.points.len() <= 30);
    assert_eq!(g.points.len(), 30);
}

#[test]
fn few_valid_points_are_plotted_one_to_one() {
    let mut raw = vec![0i32; 5];
    raw.extend_from_slice(&[10, 20, 30, 40, 50, 60, 70, 80, 90, 100]);
    let samples = clamp_samples(&raw);
    let g = build_graph(&samples, 43200, 1440, 30);
    assert_eq!(g.points.len(), 10);
    let values: Vec<u32> = g.points.iter().map(|p| p.value).collect();
    assert_eq!(values, vec![10, 20, 30, 40, 50, 60, 70, 80, 90, 100]);
}

#[test]
fn small_graph_exact_values() {
    let samples = clamp_samples(&vec![100, 200, 300]);
    let g = build_graph(&samples, 43200, 1440, 30);
    // One day bucket averaging 200: axis runs from 150 to 250.
    assert_eq!(g.y_axis_steps, vec![150, 175, 200, 225, 250]);
    assert_eq!(g.max_response, 300);
    assert_eq!(g.min_response, 100);
    assert_eq!(g.avg_response, 200);
    // Three plotted points, spread over the width with 2.5% margins.
    assert_eq!(g.points.len(), 3);
    assert_eq!(g.points[0].left_tenths, 25);
    assert_eq!(g.points[1].left_tenths, 500);
    assert_eq!(g.points[2].left_tenths, 975);
    // Vertical positions scale (value - 150) over the range of 100
    // into 80% of the height, capped at 80%.
    assert_eq!(g.points[0].bottom_tenths, 0);
    assert_eq!(g.points[1].bottom_tenths, 400);
    assert_eq!(g.points[2].bottom_tenths, 800);
    assert_eq!(g.points[0].value, 100);
    assert_eq!(g.points[1].value, 200);
    assert_eq!(g.points[2].value, 300);
}

#[test]
fn down_samples_are_dropped_from_the_graph() {
    let samples = clamp_samples(&vec![0, 500, 0, 500, 0]);
    let g = build_graph(&samples, 43200, 1440, 30);
    assert_eq!(g.points.len(), 2);
    assert_eq!(g.points[0].value, 500);
    assert_eq!(g.points[1].value, 500);
}

#[test]
fn empty_input_yields_an_empty_graph() {
    let samples = clamp_samples(&vec![]);
    let g = build_graph(&samples, 43200, 1440, 30);
    assert_eq!(g.points.len(), 0);
    assert_eq!(g.y_axis_steps, vec![0, 0, 0, 0, 0]);
    assert_eq!(g.max_response, 0);
    assert_eq!(g.min_response, 0);
    assert_eq!(g.avg_response, 0);
}

#[test]
fn downsampling_averages_contiguous_chunks() {
    // 60 valid points at a budget of 30: chunks of two are averaged.
    let raw: Vec<i32> = (1..=60).collect();
    let samples = clamp_samples(&raw);
    let g = build_graph(&samples, 43200, 1440, 30);
    assert_eq!(g.points.len(), 30);
    // First chunk averages 1 and 2 with truncation, second 3 and 4.
    assert_eq!(g.points[0].value, 1);
    assert_eq!(g.points[1].value, 3);
    assert_eq!(g.points[29].value, 59);
}
