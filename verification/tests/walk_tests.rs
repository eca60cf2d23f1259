use memwalk::walk::bound_stride;
use memwalk::walk::walk_through;
use memwalk::walk::Draw;
use memwalk::walk::Walk;
use rand::rngs::StdRng;
use rand::Rng;
use rand::SeedableRng;

#[test]
fn stride_is_the_remainder_by_the_step_size() {
    assert_eq!(bound_stride(10, 4), 2);
    assert_eq!(bound_stride(7, 7), 0);
    assert_eq!(bound_stride(usize::MAX, 1), 0);
    assert_eq!(bound_stride(usize::MAX, 2), 1);
    assert_eq!(bound_stride(3, usize::MAX), 3);
}

#[test]
fn new_walk_starts_at_zero() {
    let walk = Walk::new();
    assert_eq!(walk.position, 0);
    assert_eq!(walk.checksum, 0);
    assert_eq!(walk.steps, 0);
}

#[test]
fn advance_moves_forward_by_the_stride() {
    let buffer: Vec<u8> = vec![1, 2, 3, 4, 5];
    let mut walk = Walk::new();
    walk.advance(&buffer, 4, Draw { raw: 6, forward: true });
    assert_eq!(walk.position, 2);
    assert_eq!(walk.checksum, 3);
    assert_eq!(walk.steps, 1);
}

#[test]
fn advance_backward_wraps_at_the_word_width() {
    let buffer: Vec<u8> = vec![1, 2, 3, 4, 5];
    let mut walk = Walk { position: 2, checksum: 3, steps: 1 };
    walk.advance(&buffer, 4, Draw { raw: 7, forward: false });
    let expected = 2usize.wrapping_sub(3) % 5;
    assert_eq!(expected, 0);
    assert_eq!(walk.position, 0);
    assert_eq!(walk.checksum, 4);
    assert_eq!(walk.steps, 2);
}

#[test]
fn advance_forward_wraps_at_the_word_width() {
    let buffer: Vec<u8> = vec![10, 20, 30];
    let mut walk = Walk { position: usize::MAX, checksum: 0, steps: 0 };
    walk.advance(&buffer, 5, Draw { raw: 2, forward: true });
    assert_eq!(walk.position, 1);
    assert_eq!(walk.checksum, 20);
}

#[test]
fn checksum_wraps_at_eight_bits() {
    let buffer: Vec<u8> = vec![200];
    let draws = vec![
        Draw { raw: 0, forward: true },
        Draw { raw: 9, forward: false },
        Draw { raw: 5, forward: true },
    ];
    let walk = walk_through(&buffer, 3, &draws);
    assert_eq!(walk.position, 0);
    assert_eq!(walk.checksum, 88);
    assert_eq!(walk.steps, 3);
}

#[test]
fn walk_through_applies_every_draw_in_order() {
    let buffer: Vec<u8> = vec![0, 1, 2, 3, 4, 5, 6, 7];
    let draws = vec![
        Draw { raw: 3, forward: true },
        Draw { raw: 13, forward: true },
        Draw { raw: 4, forward: false },
        Draw { raw: 9, forward: false },
    ];
    let walk = walk_through(&buffer, 5, &draws);
    // strides 3, 3, 4, 4: positions 3, 6, 2, then 2 - 4 wrapped and reduced by 8.
    assert_eq!(walk.position, 2usize.wrapping_sub(4) % 8);
    assert_eq!(walk.position, 6);
    assert_eq!(walk.checksum, 3 + 6 + 2 + 6);
    assert_eq!(walk.steps, 4);

    let mut by_hand = Walk::new();
    for draw in &draws {
        by_hand.advance(&buffer, 5, *draw);
    }
    assert_eq!(by_hand.position, walk.position);
    assert_eq!(by_hand.checksum, walk.checksum);
    assert_eq!(by_hand.steps, walk.steps);
}

#[test]
fn walk_through_with_no_draws_stays_at_the_start() {
    let buffer: Vec<u8> = vec![9, 9];
    let walk = walk_through(&buffer, 1, &Vec::new());
    assert_eq!(walk.position, 0);
    assert_eq!(walk.checksum, 0);
    assert_eq!(walk.steps, 0);
}

#[test]
fn step_size_one_never_moves() {
    let buffer: Vec<u8> = vec![7, 1, 1];
    let draws = vec![
        Draw { raw: 12345, forward: true },
        Draw { raw: usize::MAX, forward: false },
    ];
    let walk = walk_through(&buffer, 1, &draws);
    assert_eq!(walk.position, 0);
    assert_eq!(walk.checksum, 14);
}

#[test]
fn every_position_stays_inside_the_buffer() {
    let buffer: Vec<u8> = (0..37u8).collect();
    let mut rng = StdRng::seed_from_u64(7);
    for step_size in [1usize, 2, 36, 37, 38, 1000, usize::MAX] {
        let mut walk = Walk::new();
        let mut sum: u8 = 0;
        for done in 0..500usize {
            let draw = Draw { raw: rng.gen(), forward: rng.gen() };
            assert!(bound_stride(draw.raw, step_size) < step_size);
            walk.advance(&buffer, step_size, draw);
            assert!(walk.position < buffer.len());
            sum = sum.wrapping_add(buffer[walk.position]);
            assert_eq!(walk.checksum, sum);
            assert_eq!(walk.steps, done + 1);
        }
    }
}
