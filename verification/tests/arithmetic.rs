use vole_machine::alu::{add_clamped, add_wrapping, lower, rotate_right, upper};

#[test]
fn wrapping_sum_matches_signed_addition_on_all_pairs() {
    for a in 0..=255u8 {
        for b in 0..=255u8 {
            let signed = (a as i8).wrapping_add(b as i8) as u8;
            assert_eq!(add_wrapping(a, b), signed);
            let modular = ((a as i8 as i32) + (b as i8 as i32)).rem_euclid(256) as u8;
            assert_eq!(add_wrapping(a, b), modular);
        }
    }
}

#[test]
fn wrapping_sum_examples() {
    assert_eq!(add_wrapping(200, 100), 44);
    assert_eq!(add_wrapping(0, 0), 0);
    assert_eq!(add_wrapping(255, 255), 254);
}

#[test]
fn clamped_sum_matches_float_addition_on_all_pairs() {
    for a in 0..=255u8 {
        for b in 0..=255u8 {
            let float = (a as f32 + b as f32) as u8;
            assert_eq!(add_clamped(a, b), float);
            assert_eq!(add_clamped(a, b) as u32, 255u32.min(a as u32 + b as u32));
        }
    }
}

#[test]
fn clamped_sum_examples() {
    assert_eq!(add_clamped(200, 100), 255);
    assert_eq!(add_clamped(10, 20), 30);
    assert_eq!(add_clamped(255, 1), 255);
    assert_eq!(add_clamped(254, 1), 255);
}

#[test]
fn rotation_matches_on_all_bytes_and_distances() {
    for x in 0..=255u8 {
        for n in 0..=255u8 {
            assert_eq!(rotate_right(x, n), x.rotate_right((n % 8) as u32));
        }
    }
}

#[test]
fn rotation_examples() {
    assert_eq!(rotate_right(0b1011_0000, 12), 0b0000_1011);
    assert_eq!(rotate_right(0b1011_0000, 0), 0b1011_0000);
    assert_eq!(rotate_right(0b1011_0000, 8), 0b1011_0000);
    assert_eq!(rotate_right(0b1011_0000, 15), 0b0110_0001);
    assert_eq!(rotate_right(0b0000_0001, 1), 0b1000_0000);
}

#[test]
fn nibbles() {
    assert_eq!(upper(0xA7), 0xA);
    assert_eq!(lower(0xA7), 0x7);
    assert_eq!(upper(0x0F), 0x0);
    assert_eq!(lower(0xF0), 0x0);
}
