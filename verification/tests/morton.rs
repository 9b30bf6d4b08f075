use trails::morton::{morton_code, spread_bits};

fn cascade(v: u32) -> u32 {
    let mut x: u32 = v;
    x = (x | (x << 8)) & 0x00FF_00FF;
    x = (x | (x << 4)) & 0x0F0F_0F0F;
    x = (x | (x << 2)) & 0x3333_3333;
    x = (x | (x << 1)) & 0x5555_5555;
    x
}

fn digit_by_digit(x: u32, y: u32) -> u32 {
    let mut code: u32 = 0;
    let mut i: u32 = 0;
    while i < 16 {
        code |= ((x >> i) & 1) << (2 * i);
        code |= ((y >> i) & 1) << (2 * i + 1);
        i += 1;
    }
    code
}

#[test]
fn morton_code_of_small_cells() {
    assert_eq!(morton_code(0, 0), 0);
    assert_eq!(morton_code(1, 0), 1);
    assert_eq!(morton_code(0, 1), 2);
    assert_eq!(morton_code(1, 1), 3);
    assert_eq!(morton_code(2, 0), 4);
    assert_eq!(morton_code(0, 2), 8);
    assert_eq!(morton_code(3, 5), 39);
    assert_eq!(morton_code(7, 7), 63);
}

#[test]
fn morton_code_of_the_corners_of_the_coordinate_space() {
    assert_eq!(morton_code(0xFFFF, 0), 0x5555_5555);
    assert_eq!(morton_code(0, 0xFFFF), 0xAAAA_AAAA);
    assert_eq!(morton_code(0xFFFF, 0xFFFF), 0xFFFF_FFFF);
    assert_eq!(morton_code(0x8000, 0), 0x4000_0000);
    assert_eq!(morton_code(0, 0x8000), 0x8000_0000);
}

#[test]
fn spread_bits_moves_each_bit_to_twice_its_position() {
    assert_eq!(spread_bits(0), 0);
    assert_eq!(spread_bits(1), 1);
    assert_eq!(spread_bits(2), 4);
    assert_eq!(spread_bits(3), 5);
    assert_eq!(spread_bits(0b1011), 0b100_0101);
    assert_eq!(spread_bits(0xFFFF), 0x5555_5555);
    let mut i: u32 = 0;
    while i < 16 {
        assert_eq!(spread_bits(1 << i), 1 << (2 * i));
        i += 1;
    }
}

#[test]
fn morton_code_interleaves_the_digits_of_every_cell_of_a_grid() {
    let mut x: u32 = 0;
    while x < 300 {
        let mut y: u32 = 0;
        while y < 300 {
            assert_eq!(morton_code(x, y), digit_by_digit(x, y));
            y += 1;
        }
        x += 1;
    }
}

#[test]
fn morton_code_is_the_shift_and_mask_cascade_on_any_value() {
    let mut state: u32 = 0x1234_5678;
    let mut n: u32 = 0;
    while n < 20000 {
        state = state.wrapping_mul(1664525).wrapping_add(1013904223);
        let x: u32 = state;
        state = state.wrapping_mul(1664525).wrapping_add(1013904223);
        let y: u32 = state;
        assert_eq!(spread_bits(x), cascade(x));
        assert_eq!(morton_code(x, y), cascade(x) | (cascade(y) << 1));
        n += 1;
    }
}

#[test]
fn values_above_the_coordinate_space_are_folded() {
    assert_eq!(spread_bits(0x0001_0000), spread_bits(0x0100));
    assert_eq!(spread_bits(0x00FF_0000), spread_bits(0xFF00));
    assert_eq!(spread_bits(0x0012_3456), spread_bits(0x3456 | 0x1200));
    assert_eq!(spread_bits(0xFF00_0000), 0);
    assert_eq!(morton_code(0x0100_0003, 0xFF00_0005), 39);
}

#[test]
fn distinct_cells_have_distinct_codes() {
    let mut seen: Vec<bool> = vec![false; 64 * 64];
    let mut x: u32 = 0;
    while x < 64 {
        let mut y: u32 = 0;
        while y < 64 {
            let code: usize = morton_code(x, y) as usize;
            assert!(code < 64 * 64);
            assert!(!seen[code]);
            seen[code] = true;
            y += 1;
        }
        x += 1;
    }
}
