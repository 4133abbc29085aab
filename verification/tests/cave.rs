use cave_runner::mesh::{last_chunk_quads, plan_cave_update, quad_indices, ColliderList};
use cave_runner::verts::VertsResource;

#[test]
fn sections_are_kept_two_at_a_time() {
    let mut v: VertsResource<(f32, f32)> = VertsResource::new();
    assert_eq!(v.len(), 0);
    v.push_section((0.0, 1.0), (0.0, -1.0), (0.0, 2.0), (0.0, -2.0));
    assert_eq!(v.as_slice(), &[(0.0, 1.0), (0.0, -1.0), (0.0, 2.0), (0.0, -2.0)]);
    v.push_section((1.0, 1.0), (1.0, -1.0), (1.0, 2.0), (1.0, -2.0));
    assert_eq!(v.len(), 8);
    v.push_section((2.0, 1.0), (2.0, -1.0), (2.0, 2.0), (2.0, -2.0));
    assert_eq!(
        v.as_slice(),
        &[(1.0, 1.0), (1.0, -1.0), (1.0, 2.0), (1.0, -2.0), (2.0, 1.0), (2.0, -1.0), (2.0, 2.0), (2.0, -2.0)]
    );
}

#[test]
fn no_quads_before_two_sections() {
    assert!(last_chunk_quads::<u32>(&[]).is_none());
    assert!(last_chunk_quads(&[0u32, 1, 2, 3, 4, 5, 6]).is_none());
}

#[test]
fn quads_of_the_newest_chunk() {
    let (up, down) = last_chunk_quads(&[0u32, 1, 2, 3, 4, 5, 6, 7]).unwrap();
    assert_eq!(up, vec![4, 6, 2, 0]);
    assert_eq!(down, vec![7, 5, 1, 3]);
    let (up, down) = last_chunk_quads(&[10u32, 11, 12, 13, 0, 1, 2, 3, 4, 5, 6, 7]).unwrap();
    assert_eq!(up, vec![4, 6, 2, 0]);
    assert_eq!(down, vec![7, 5, 1, 3]);
}

#[test]
fn quads_of_two_pushed_sections() {
    let mut v: VertsResource<&str> = VertsResource::new();
    v.push_section("h1", "l1", "H1", "L1");
    v.push_section("h2", "l2", "H2", "L2");
    let (up, down) = last_chunk_quads(v.as_slice()).unwrap();
    assert_eq!(up, vec!["h2", "H2", "H1", "h1"]);
    assert_eq!(down, vec!["L2", "l2", "l1", "L1"]);
}

#[test]
fn quad_mesh_indices() {
    assert_eq!(quad_indices(), vec![0u16, 1, 2, 2, 3, 0]);
}

#[test]
fn collider_list_evicts_oldest_piece_at_limit() {
    let mut list: ColliderList<u64> = ColliderList::new();
    assert!(list.evict_oldest().is_empty());
    for piece in 0..25u64 {
        list.record_piece(4 * piece, 4 * piece + 1, 4 * piece + 2, 4 * piece + 3);
    }
    assert_eq!(list.len(), 100);
    let gone = list.evict_oldest();
    assert_eq!(gone, vec![0, 1, 2, 3]);
    assert_eq!(list.len(), 96);
    assert_eq!(list.as_slice()[0], 4);
    assert!(list.evict_oldest().is_empty());
    list.record_piece(100, 101, 102, 103);
    assert_eq!(list.len(), 100);
    assert_eq!(&list.as_slice()[96..], &[100, 101, 102, 103]);
}

#[test]
fn collider_list_stays_within_limit_over_many_rounds() {
    let mut list: ColliderList<u64> = ColliderList::new();
    for round in 0..60u64 {
        let _ = list.evict_oldest();
        list.record_piece(round, round, round, round);
        assert!(list.len() <= 100);
        assert_eq!(list.len() % 4, 0);
    }
    assert_eq!(list.as_slice()[0], 35);
}

#[test]
fn cave_update_plan_only_when_due() {

    let mut list: ColliderList<u64> = ColliderList::new();
    for piece in 0..25u64 {
        list.record_piece(piece, piece, piece, piece);
    }
    let verts = [0u32, 1, 2, 3, 4, 5, 6, 7];
    let plan = plan_cave_update(&mut list, false, &verts);
    assert!(plan.despawn.is_empty());
    assert!(plan.quads.is_none());
    assert_eq!(list.len(), 100);
    let plan = plan_cave_update(&mut list, true, &verts);
    assert_eq!(plan.despawn, vec![0, 0, 0, 0]);
    assert_eq!(plan.quads, Some((vec![4, 6, 2, 0], vec![7, 5, 1, 3])));
    assert_eq!(list.len(), 96);
    let plan = plan_cave_update(&mut list, true, &verts[..4]);
    assert!(plan.despawn.is_empty());
    assert!(plan.quads.is_none());
}
