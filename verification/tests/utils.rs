//! Option combinators and pixel packing.
use rust_cycle::utils::lift_a2_option;
use rust_cycle::utils::pack_bits;
use rust_cycle::utils::sequence_option_option;

#[test]
fn test_example() {
    assert_eq!(pack_bits(&vec![0, 0, 0, 0, 0, 0, 1, 1]), vec![0b00000011])
}

#[test]
fn pack_bits_packs_eight_pixels_per_byte() {
    assert_eq!(
        pack_bits(&vec![1, 0, 0, 0, 0, 0, 0, 1, 1, 1, 1, 1, 1, 1, 1, 1]),
        vec![0b10000001, 0b11111111]
    );
}

#[test]
fn pack_bits_drops_a_short_tail() {
    assert_eq!(pack_bits(&vec![1, 1, 1]), Vec::<u8>::new());
}

#[test]
fn lift_a2_applies_under_both_options() {
    assert_eq!(
        Some(5),
        lift_a2_option(Some(2), Some(3), |a: i32, b: i32| a + b)
    );
    assert_eq!(
        None,
        lift_a2_option(None, Some(3), |a: i32, b: i32| a + b)
    );
    assert_eq!(
        None,
        lift_a2_option(Some(2), None, |a: i32, b: i32| a + b)
    );
}

#[test]
fn sequence_option_option_flips_the_layers() {
    assert_eq!(Some(Some(1)), sequence_option_option(Some(Some(1))));
    assert_eq!(None, sequence_option_option::<i32>(Some(None)));
    assert_eq!(Some(None), sequence_option_option::<i32>(None));
}
