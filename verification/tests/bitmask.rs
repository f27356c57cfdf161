use sudoku_ffi::bitmask::{
    cells_of_mask, digits_of_mask, is_within, lines_of_mask, mask_of_cells, mask_of_digits,
    mask_of_lines, mask_of_positions_house, mask_of_positions_line, positions_of_mask,
};

#[test]
fn digits_sit_one_bit_below_their_value() {
    assert_eq!(mask_of_digits(&[]), 0);
    assert_eq!(mask_of_digits(&[1]), 0b1);
    assert_eq!(mask_of_digits(&[9]), 0b1_0000_0000);
    assert_eq!(mask_of_digits(&[2, 5, 7]), 0b0_0101_0010);
    assert_eq!(mask_of_digits(&[1, 2, 3, 4, 5, 6, 7, 8, 9]), 0x1ff);
}

#[test]
fn packing_does_not_depend_on_order_or_repetition() {
    assert_eq!(mask_of_digits(&[7, 2, 5]), mask_of_digits(&[2, 5, 7]));
    assert_eq!(mask_of_digits(&[5, 5, 2, 7, 2]), 0b0_0101_0010);
    assert_eq!(mask_of_cells(&[80, 0, 64, 0]), mask_of_cells(&[0, 64, 80]));
}

#[test]
fn positions_sit_on_their_own_bit() {
    assert_eq!(mask_of_positions_house(&[]), 0);
    assert_eq!(mask_of_positions_house(&[0]), 0b1);
    assert_eq!(mask_of_positions_house(&[8]), 0b1_0000_0000);
    assert_eq!(mask_of_positions_house(&[0, 3, 4]), 0b1_1001);
    assert_eq!(mask_of_positions_line(&[1, 7]), 0b1000_0010);
    assert_eq!(mask_of_positions_line(&[0, 1, 2, 3, 4, 5, 6, 7, 8]), 0x1ff);
}

#[test]
fn lines_fill_eighteen_bits() {
    assert_eq!(mask_of_lines(&[]), 0);
    assert_eq!(mask_of_lines(&[0, 9]), 0b10_0000_0001);
    assert_eq!(mask_of_lines(&[17]), 1 << 17);
    let all: Vec<u8> = (0..18).collect();
    assert_eq!(mask_of_lines(&all), 0x3_ffff);
}

#[test]
fn cells_split_into_two_words() {
    assert_eq!(mask_of_cells(&[]), [0, 0]);
    assert_eq!(mask_of_cells(&[0]), [1, 0]);
    assert_eq!(mask_of_cells(&[63]), [1 << 63, 0]);
    assert_eq!(mask_of_cells(&[64]), [0, 1]);
    assert_eq!(mask_of_cells(&[80]), [0, 1 << 16]);
    assert_eq!(mask_of_cells(&[3, 40, 70]), [(1 << 3) | (1 << 40), 1 << 6]);
    let all: Vec<u8> = (0..81).collect();
    assert_eq!(mask_of_cells(&all), [u64::MAX, 0x1_ffff]);
}

#[test]
fn unpacking_lists_the_members_in_order() {
    assert_eq!(digits_of_mask(0), Vec::<u8>::new());
    assert_eq!(digits_of_mask(0b0_0101_0010), vec![2, 5, 7]);
    assert_eq!(digits_of_mask(0x1ff), vec![1, 2, 3, 4, 5, 6, 7, 8, 9]);
    assert_eq!(positions_of_mask(0b1_1001), vec![0, 3, 4]);
    assert_eq!(lines_of_mask(0b10_0000_0001), vec![0, 9]);
    assert_eq!(lines_of_mask(1 << 26), vec![26]);
    assert_eq!(cells_of_mask(&[(1 << 3) | (1 << 40), 1 << 6]), vec![3, 40, 70]);
    assert_eq!(cells_of_mask(&[1 << 63, 1]), vec![63, 64]);
}

#[test]
fn every_set_of_digits_comes_back() {
    for mask in 0u16..512 {
        let digits = digits_of_mask(mask);
        assert!(is_within(&digits, 1, 9));
        assert_eq!(digits.len() as u32, mask.count_ones());
        assert_eq!(mask_of_digits(&digits), mask);
        let positions = positions_of_mask(mask);
        assert!(is_within(&positions, 0, 8));
        assert_eq!(mask_of_positions_house(&positions), mask);
        assert_eq!(mask_of_positions_line(&positions), mask);
    }
}

#[test]
fn sets_of_lines_and_cells_come_back() {
    for lines in [vec![], vec![0u8], vec![17], vec![1, 4, 9, 13], (0..18).collect()] {
        assert_eq!(lines_of_mask(mask_of_lines(&lines)), lines);
    }
    for cells in [vec![], vec![0u8], vec![80], vec![5, 63, 64, 79], (0..81).collect()] {
        let mask = mask_of_cells(&cells);
        assert_eq!(cells_of_mask(&mask), cells);
        assert_eq!(mask_of_cells(&cells_of_mask(&mask)), mask);
    }
    for mask in [0u32, 1, 0x2_0001, 0x3_ffff] {
        assert_eq!(mask_of_lines(&lines_of_mask(mask)), mask);
    }
}

#[test]
fn is_within_tests_both_ends() {
    assert!(is_within(&[], 1, 9));
    assert!(is_within(&[1, 9, 5], 1, 9));
    assert!(!is_within(&[1, 0], 1, 9));
    assert!(!is_within(&[10], 1, 9));
    assert!(is_within(&[0, 80], 0, 80));
    assert!(!is_within(&[0, 81], 0, 80));
}
