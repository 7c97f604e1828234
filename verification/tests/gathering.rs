use bevymmo_gameplay::gathering::{resolve_gather, GatherAttempt};
use bevymmo_gameplay::items::GatheringToolKind;

#[test]
fn gather_cannot_exceed_remaining_pieces() {
    let out = resolve_gather(GatherAttempt {
        yield_amount: 1,
        bonus_extra: 1,
        current_pieces: 1,
        inventory_space: 10,
    });
    assert_eq!(out.granted, 1);
    assert_eq!(out.remaining_pieces, 0);
    assert!(out.node_depleted);
    assert!(out.session_ends);
}

#[test]
fn gather_with_no_space_does_not_touch_the_node() {
    let out = resolve_gather(GatherAttempt {
        yield_amount: 1,
        bonus_extra: 0,
        current_pieces: 5,
        inventory_space: 0,
    });
    assert_eq!(out.granted, 0);
    assert_eq!(out.remaining_pieces, 5);
    assert!(out.session_ends);
    assert!(!out.node_depleted);
}

#[test]
fn gather_ends_when_the_bag_fills_on_this_piece() {
    let out = resolve_gather(GatherAttempt {
        yield_amount: 1,
        bonus_extra: 0,
        current_pieces: 5,
        inventory_space: 1,
    });
    assert_eq!(out.granted, 1);
    assert!(out.session_ends);
    assert!(!out.node_depleted);
}

#[test]
fn kinds_are_distinct() {
    assert_ne!(GatheringToolKind::Axe, GatheringToolKind::Hammer);
}

#[test]
fn bonus_pieces_count_as_extra_and_keep_the_session_going() {
    let out = resolve_gather(GatherAttempt {
        yield_amount: 2,
        bonus_extra: 1,
        current_pieces: 10,
        inventory_space: 50,
    });
    assert_eq!(out.granted, 3);
    assert_eq!(out.extra, 1);
    assert_eq!(out.remaining_pieces, 7);
    assert!(!out.node_depleted);
    assert!(!out.session_ends);
}

#[test]
fn an_empty_node_is_depleted_and_ends_the_session() {
    let out = resolve_gather(GatherAttempt {
        yield_amount: 1,
        bonus_extra: 0,
        current_pieces: 0,
        inventory_space: 5,
    });
    assert_eq!(out.granted, 0);
    assert!(out.node_depleted);
    assert!(out.session_ends);
}

#[test]
fn a_huge_bonus_saturates_instead_of_wrapping() {
    let out = resolve_gather(GatherAttempt {
        yield_amount: u32::MAX,
        bonus_extra: 5,
        current_pieces: 3,
        inventory_space: u32::MAX,
    });
    assert_eq!(out.granted, 3);
    assert_eq!(out.extra, 0);
    assert!(out.node_depleted);
}
