use yamengine::render::{
    draw_step, index_pair_bytes, plan_instances, DrawError, DrawEvent, quad_index_bytes, InstanceLimitError, ShaderHashes, MAX_GEOMETRY_COUNT, MAX_INDEX_PAIR_COUNT,
    MAX_TRANSFORM2D_COUNT,
};

#[test]
fn instances_pair_each_transform_with_each_geometry() {
    let plan = plan_instances(&vec![(2, 3), (0, 4), (1, 1)]).unwrap();
    assert_eq!(plan.transform_count, 3);
    assert_eq!(plan.geometry_count, 8);
    assert_eq!(
        plan.index_pairs,
        vec![(0, 0), (0, 1), (0, 2), (1, 0), (1, 1), (1, 2), (2, 7)]
    );
}

#[test]
fn instances_refer_to_stored_entries() {
    let groups = vec![(3, 2), (1, 5), (4, 1), (0, 0), (2, 2)];
    let plan = plan_instances(&groups).unwrap();
    let pairs: usize = groups.iter().map(|(t, g)| t * g).sum();
    assert_eq!(plan.index_pairs.len(), pairs);
    for &(t, g) in plan.index_pairs.iter() {
        assert!((t as usize) < plan.transform_count);
        assert!((g as usize) < plan.geometry_count);
    }
}

#[test]
fn empty_frame_plans_nothing() {
    let plan = plan_instances(&vec![]).unwrap();
    assert_eq!(plan.transform_count, 0);
    assert_eq!(plan.geometry_count, 0);
    assert!(plan.index_pairs.is_empty());
}

#[test]
fn limits_are_checked_in_order() {
    assert_eq!(
        plan_instances(&vec![(MAX_TRANSFORM2D_COUNT + 1, MAX_GEOMETRY_COUNT + 1)]).unwrap_err(),
        InstanceLimitError::TooManyTransforms
    );
    assert_eq!(
        plan_instances(&vec![(1, MAX_GEOMETRY_COUNT), (0, 1)]).unwrap_err(),
        InstanceLimitError::TooManyGeometries
    );
    assert_eq!(
        plan_instances(&vec![(3, 2_000_000)]).unwrap_err(),
        InstanceLimitError::TooManyIndexPairs
    );
    assert_eq!(
        plan_instances(&vec![(usize::MAX, usize::MAX), (usize::MAX, 1)]).unwrap_err(),
        InstanceLimitError::TooManyTransforms
    );
}

#[test]
fn limits_themselves_are_allowed() {
    let plan = plan_instances(&vec![(2, MAX_INDEX_PAIR_COUNT / 2)]).unwrap();
    assert_eq!(plan.index_pairs.len(), MAX_INDEX_PAIR_COUNT);
    assert_eq!(plan.geometry_count, MAX_INDEX_PAIR_COUNT / 2);
    assert_eq!(plan.index_pairs[70_000], (0, 70_000));
    assert_eq!(plan.index_pairs[MAX_INDEX_PAIR_COUNT - 1], (1, (MAX_INDEX_PAIR_COUNT / 2 - 1) as u32));
}

#[test]
fn positions_past_sixteen_bits_are_kept() {
    let plan = plan_instances(&vec![(70_000, 1)]).unwrap();
    assert_eq!(plan.index_pairs.len(), 70_000);
    assert_eq!(plan.index_pairs[65_536], (65_536, 0));
    assert_eq!(plan.index_pairs[69_999], (69_999, 0));
    let plan = plan_instances(&vec![(0, MAX_GEOMETRY_COUNT - 1), (1, 1)]).unwrap();
    assert_eq!(plan.index_pairs, vec![(0, (MAX_GEOMETRY_COUNT - 1) as u32)]);
}

#[test]
fn shaders_recompile_only_when_a_source_changes() {
    let mut h = ShaderHashes::new();
    assert!(h.update(11, 22));
    assert!(!h.update(11, 22));
    assert!(h.update(11, 23));
    assert_eq!(h, ShaderHashes { vhash: 11, fhash: 23 });
    assert!(h.update(12, 23));
    assert!(!h.update(12, 23));
}

fn words_of(bytes: &[u8]) -> Vec<u32> {
    bytes.chunks(4).map(|c| u32::from_ne_bytes([c[0], c[1], c[2], c[3]])).collect()
}

#[test]
fn instance_bytes_hold_each_pair_in_order() {
    let pairs = vec![(1u32, 2u32), (0x0304, 0x1_0000), (0, 0x8000_0001)];
    let bytes = index_pair_bytes(&pairs);
    assert_eq!(bytes.len(), 24);
    assert_eq!(words_of(&bytes), vec![1, 2, 0x0304, 0x1_0000, 0, 0x8000_0001]);
    assert!(index_pair_bytes(&vec![]).is_empty());
}

#[test]
fn quad_faces_as_bytes() {
    let bytes = quad_index_bytes();
    assert_eq!(bytes.len(), 24);
    assert_eq!(words_of(&bytes), vec![0, 1, 2, 2, 3, 0]);
}

#[test]
fn a_frame_begins_once_and_finishes_once() {
    assert_eq!(draw_step(false, DrawEvent::Begin), Ok(true));
    assert_eq!(draw_step(true, DrawEvent::Begin), Err(DrawError::AlreadyBegun));
    assert_eq!(draw_step(true, DrawEvent::Finish), Ok(false));
    assert_eq!(draw_step(false, DrawEvent::Finish), Err(DrawError::AlreadyEnded));
}
