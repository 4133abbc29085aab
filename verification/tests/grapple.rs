use cave_runner::grapple::{anchor_for, ButtonEvent, GrappleAction, GrapplePoint};
use cave_runner::noise_seed::{HasherData, NOISE_SEED_BOUND};
use noise::permutationtable::{NoiseHasher, PermutationTable};

#[test]
fn press_on_a_collider_hooks_the_cursor() {
    let mut g = GrapplePoint::new((0.0f32, 0.0f32));
    assert!(!g.should_draw);
    let act = g.on_button(ButtonEvent::Pressed { hit: Some(7), cursor: (3.0, 4.0) });
    assert_eq!(act, GrappleAction::Attach { collider: 7 });
    assert!(g.should_draw);
    assert_eq!(g.point, (3.0, 4.0));
}

#[test]
fn press_on_nothing_does_nothing() {
    let mut g = GrapplePoint::new((1.0f32, 1.0f32));
    let act = g.on_button(ButtonEvent::Pressed { hit: None, cursor: (3.0, 4.0) });
    assert_eq!(act, GrappleAction::Nothing);
    assert!(!g.should_draw);
    assert_eq!(g.point, (1.0, 1.0));
}

#[test]
fn release_lets_go() {
    let mut g = GrapplePoint::new((0.0f32, 0.0f32));
    g.on_button(ButtonEvent::Pressed { hit: Some(1), cursor: (5.0, 6.0) });
    let act = g.on_button(ButtonEvent::Released);
    assert_eq!(act, GrappleAction::Detach);
    assert!(!g.should_draw);
    assert_eq!(g.point, (5.0, 6.0));
    assert_eq!(g.on_button(ButtonEvent::Released), GrappleAction::Detach);
}

#[test]
fn anchor_is_the_last_matching_position() {
    let ts = [(1u64, (1.0f32, 0.0f32)), (2, (2.0, 0.0)), (1, (3.0, 0.0))];
    assert_eq!(anchor_for(&ts, 1, (0.0, 0.0)), (3.0, 0.0));
    assert_eq!(anchor_for(&ts, 2, (0.0, 0.0)), (2.0, 0.0));
    assert_eq!(anchor_for(&ts, 9, (0.0, 0.0)), (0.0, 0.0));
    assert_eq!(anchor_for::<u8>(&[], 1, 5), 5);
}

#[test]
fn noise_seed_is_below_bound() {
    for _ in 0..50 {
        let h = HasherData::random();
        assert!(h.noise_seed() < NOISE_SEED_BOUND);
        let _ = h.hasher();
    }
}

#[test]
fn noise_seeds_vary() {
    let seeds: Vec<u32> = (0..20).map(|_| HasherData::random().noise_seed()).collect();
    assert!(seeds.iter().any(|s| *s != seeds[0]));
}

#[test]
fn noise_from_a_given_seed() {
    let h = HasherData::from_seed(1234);
    assert_eq!(h.noise_seed(), 1234);
    let _ = h.hasher();
}

#[test]
fn noise_table_is_the_noise_crates_table_for_the_seed() {
    let h = HasherData::from_seed(4321);
    let expected = PermutationTable::new(4321);
    for a in 0..16isize {
        for b in 0..16isize {
            assert_eq!(h.hasher().hash(&[a, b]), expected.hash(&[a, b]));
        }
    }
    let r = HasherData::random();
    let again = PermutationTable::new(r.noise_seed());
    assert_eq!(r.hasher().hash(&[3, 7]), again.hash(&[3, 7]));
}
