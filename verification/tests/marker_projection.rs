use shrimply_model::marker_projection::{lane_markers, project_marker_range, LaneMarker, LaneNode, Placement};

#[test]
fn markers_follow_the_clip() {
    assert_eq!(project_marker_range((3, 3), (10, 20), 0, (1, 1)), Some((13, 13)));
    assert_eq!(project_marker_range((3, 6), (10, 20), 0, (1, 1)), Some((13, 16)));
    assert_eq!(project_marker_range((3, 6), (10, 20), 2, (1, 1)), Some((11, 14)));
}

#[test]
fn points_outside_the_clip_are_dropped() {
    assert_eq!(project_marker_range((15, 15), (10, 20), 0, (1, 1)), None);
    assert_eq!(project_marker_range((1, 1), (10, 20), 5, (1, 1)), None);
    assert_eq!(project_marker_range((9, 9), (10, 20), 0, (1, 1)), Some((19, 19)));
}

#[test]
fn ranges_are_cut_to_the_clip() {
    assert_eq!(project_marker_range((0, 30), (10, 20), 0, (1, 1)), Some((10, 20)));
    assert_eq!(project_marker_range((12, 30), (10, 20), 0, (1, 1)), None);
}

#[test]
fn speed_scales_and_reverses_markers() {
    assert_eq!(project_marker_range((4, 8), (10, 20), 0, (2, 1)), Some((12, 14)));
    assert_eq!(project_marker_range((3, 3), (10, 20), 0, (2, 1)), Some((12, 12)));
    assert_eq!(project_marker_range((1, 2), (10, 20), 0, (2, 1)), Some((11, 12)));
    assert_eq!(project_marker_range((2, 5), (10, 20), 9, (-1, 1)), Some((15, 18)));
}

fn entry(duration: i64, markers: Vec<(i64, i64)>, placement: Result<Placement, String>) -> LaneNode {
    LaneNode::Entry { duration: Ok(duration), markers: Ok(markers), placement }
}

fn forward(in_frame: i64) -> Result<Placement, String> {
    Ok(Placement { in_frame, reverse_origin: None, speed_numerator: 1, speed_denominator: 1 })
}

#[test]
fn lanes_place_markers_after_the_nodes_before() {
    let nodes = vec![
        LaneNode::Blank { duration: Ok(10) },
        entry(10, vec![(3, 3), (30, 31)], forward(0)),
        entry(5, Vec::new(), Err("not read".to_string())),
        entry(10, vec![(7, 9)], forward(5)),
    ];
    assert_eq!(
        lane_markers(&nodes),
        Ok(vec![
            LaneMarker { node: 1, marker: 0, start: 13, end: 13 },
            LaneMarker { node: 3, marker: 0, start: 27, end: 29 },
        ])
    );
}

#[test]
fn lane_errors_stop_the_walk() {
    let zero = vec![entry(10, vec![(1, 1)], Ok(Placement {
        in_frame: 0,
        reverse_origin: None,
        speed_numerator: 0,
        speed_denominator: 1,
    }))];
    assert_eq!(lane_markers(&zero), Err("marker clip has zero playback speed".to_string()));
    let overflow = vec![LaneNode::Blank { duration: Ok(i64::MAX) }, LaneNode::Blank { duration: Ok(1) }];
    assert_eq!(lane_markers(&overflow), Err("marker timeline position overflowed".to_string()));
    let reversed = vec![entry(10, vec![(1, 1)], Ok(Placement {
        in_frame: 1,
        reverse_origin: Some(i64::MIN),
        speed_numerator: -1,
        speed_denominator: 1,
    }))];
    assert_eq!(lane_markers(&reversed), Err("marker source position overflowed".to_string()));
    let unread = vec![LaneNode::Blank { duration: Err("bad length".to_string()) }];
    assert_eq!(lane_markers(&unread), Err("bad length".to_string()));
    let missing = vec![entry(10, vec![(1, 1)], Err("no source".to_string()))];
    assert_eq!(lane_markers(&missing), Err("no source".to_string()));
}
