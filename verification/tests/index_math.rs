use zarr_reader::array::{
    cartesian_indices, format_key, linear_index, parse_key_string, strides, try_linear_index,
    try_strides,
};
use zarr_reader::shape::{checked_product, has_zero_extent};
use zarr_reader::types::ArrayOrder;

#[test]
fn strides_follow_memory_order() {
    assert_eq!(strides(&[2, 3, 4], ArrayOrder::C), vec![12, 4, 1]);
    assert_eq!(strides(&[2, 3, 4], ArrayOrder::F), vec![1, 2, 6]);
    assert_eq!(strides(&[], ArrayOrder::C), Vec::<usize>::new());
    assert_eq!(strides(&[7], ArrayOrder::C), vec![1]);
    assert_eq!(strides(&[7], ArrayOrder::F), vec![1]);
}

#[test]
fn strides_of_a_shape_with_a_zero_extent() {
    assert_eq!(strides(&[3, 0, 5], ArrayOrder::C), vec![0, 5, 1]);
    assert_eq!(strides(&[3, 0, 5], ArrayOrder::F), vec![1, 3, 0]);
}

#[test]
fn enumeration_and_flattening_agree() {
    let shape = [2usize, 3, 4];
    let all = cartesian_indices(&shape);
    assert_eq!(all.len(), 24);
    for (k, index) in all.iter().enumerate() {
        assert_eq!(linear_index(&shape, ArrayOrder::C, index), k);
    }
    assert_eq!(all[0], vec![0, 0, 0]);
    assert_eq!(all[1], vec![0, 0, 1]);
    assert_eq!(all[4], vec![0, 1, 0]);
    assert_eq!(all[23], vec![1, 2, 3]);
}

#[test]
fn enumeration_of_degenerate_shapes() {
    assert_eq!(cartesian_indices(&[]), vec![Vec::<usize>::new()]);
    assert_eq!(cartesian_indices(&[0]), Vec::<Vec<usize>>::new());
    assert_eq!(cartesian_indices(&[2, 0]), Vec::<Vec<usize>>::new());
    assert_eq!(cartesian_indices(&[3]), vec![vec![0], vec![1], vec![2]]);
}

#[test]
fn column_major_enumeration_differs_from_the_row_major_one() {
    let shape = [2usize, 3];
    let all = cartesian_indices(&shape);
    assert_eq!(all[1], vec![0, 1]);
    assert_eq!(linear_index(&shape, ArrayOrder::F, &all[1]), 2);
    assert_eq!(linear_index(&shape, ArrayOrder::F, &all[0]), 0);
    assert_eq!(linear_index(&shape, ArrayOrder::F, &all[5]), 5);
    let mut seen = vec![false; 6];
    for index in &all {
        seen[linear_index(&shape, ArrayOrder::F, index)] = true;
    }
    assert!(seen.iter().all(|s| *s));
}

#[test]
fn fortran_order_index_of_last_element() {
    assert_eq!(linear_index(&[2, 3], ArrayOrder::F, &[1, 2]), 5);
    assert_eq!(linear_index(&[2, 3], ArrayOrder::C, &[1, 2]), 5);
    assert_eq!(linear_index(&[2, 3], ArrayOrder::F, &[0, 1]), 2);
    assert_eq!(linear_index(&[2, 3], ArrayOrder::C, &[0, 1]), 1);
    assert_eq!(linear_index(&[2, 3, 4], ArrayOrder::C, &[1, 2, 3]), 23);
    assert_eq!(linear_index(&[2, 3, 4], ArrayOrder::F, &[1, 2, 3]), 1 + 2 * 2 + 3 * 6);
}

#[test]
fn linear_index_sums_the_dimensions_that_both_have() {
    assert_eq!(linear_index(&[2, 3, 4], ArrayOrder::C, &[1, 2]), 12 + 8);
    assert_eq!(linear_index(&[2, 3], ArrayOrder::C, &[1, 2, 9]), 5);
    assert_eq!(linear_index(&[2, 3], ArrayOrder::C, &[]), 0);
}

#[test]
fn keys_parse_with_dots_and_slashes() {
    assert_eq!(parse_key_string("0.1.2"), vec![0, 1, 2]);
    assert_eq!(parse_key_string("0/1/2"), vec![0, 1, 2]);
    assert_eq!(parse_key_string("3"), vec![3]);
    assert_eq!(parse_key_string("1.x.2"), vec![1, 2]);
    assert_eq!(parse_key_string(""), Vec::<usize>::new());
    assert_eq!(parse_key_string("1.2/3"), vec![1]);
    assert_eq!(parse_key_string("+4.05"), vec![4, 5]);
    assert_eq!(parse_key_string("-4.5"), vec![5]);
    assert_eq!(parse_key_string("1..2"), vec![1, 2]);
    assert_eq!(parse_key_string("99999999999999999999999.1"), vec![1]);
}

#[test]
fn keys_format_and_parse_back() {
    assert_eq!(format_key(&[10, 0, 7]), "10.0.7");
    assert_eq!(format_key(&[0]), "0");
    assert_eq!(format_key(&[]), "");
    assert_eq!(format_key(&[usize::MAX, 1]), format!("{}.1", usize::MAX));
    for key in [vec![10usize, 0, 7], vec![0], vec![], vec![123456789, 42]] {
        assert_eq!(parse_key_string(&format_key(&key)), key);
    }
}

#[test]
fn element_counts_with_and_without_overflow() {
    assert_eq!(checked_product(&[]), Some(1));
    assert_eq!(checked_product(&[2, 3, 4]), Some(24));
    assert_eq!(checked_product(&[usize::MAX, 2]), None);
    assert_eq!(checked_product(&[usize::MAX, usize::MAX, 0]), Some(0));
    assert_eq!(checked_product(&[0, usize::MAX, usize::MAX]), Some(0));
    assert_eq!(checked_product(&[usize::MAX, 1]), Some(usize::MAX));
    assert!(has_zero_extent(&[1, 0]));
    assert!(!has_zero_extent(&[1, 2]));
    assert!(!has_zero_extent(&[]));
}

#[test]
fn strides_and_indices_that_do_not_fit() {
    let huge = usize::MAX / 2 + 1;
    assert_eq!(try_strides(&[2, 3, 4], ArrayOrder::C), Some(vec![12, 4, 1]));
    assert_eq!(try_strides(&[2, 3, 4], ArrayOrder::F), Some(vec![1, 2, 6]));
    assert_eq!(try_strides(&[huge, 2], ArrayOrder::C), Some(vec![2, 1]));
    assert_eq!(try_strides(&[huge, 2], ArrayOrder::F), Some(vec![1, huge]));
    assert_eq!(try_strides(&[2, huge, 2], ArrayOrder::C), None);
    assert_eq!(try_strides(&[2, huge, 2], ArrayOrder::F), None);
    assert_eq!(try_strides(&[0, huge, huge], ArrayOrder::C), None);
    assert_eq!(try_strides(&[0, huge, huge], ArrayOrder::F), Some(vec![1, 0, 0]));
    assert_eq!(try_strides(&[huge, huge, 0], ArrayOrder::C), Some(vec![0, 0, 1]));
    assert_eq!(try_strides(&[huge, huge, 0], ArrayOrder::F), None);
    assert_eq!(try_strides(&[], ArrayOrder::F), Some(vec![]));
    assert_eq!(try_linear_index(&[2, 3], ArrayOrder::C, &[1, 2]), Some(5));
    assert_eq!(try_linear_index(&[2, 3], ArrayOrder::F, &[1, 2]), Some(5));
    assert_eq!(try_linear_index(&[2, 3], ArrayOrder::C, &[usize::MAX, 0]), None);
    assert_eq!(try_linear_index(&[2, 3], ArrayOrder::C, &[usize::MAX / 3, 0]), Some(usize::MAX));
    assert_eq!(try_linear_index(&[2, 3], ArrayOrder::C, &[usize::MAX / 3, 1]), None);
    assert_eq!(try_linear_index(&[2, 3], ArrayOrder::F, &[usize::MAX, 0]), Some(usize::MAX));
    assert_eq!(try_linear_index(&[2, 3], ArrayOrder::F, &[usize::MAX, 1]), None);
    assert_eq!(try_linear_index(&[2, huge, 2], ArrayOrder::C, &[0, 0, 0]), None);
    assert_eq!(try_linear_index(&[], ArrayOrder::C, &[5]), Some(0));
}
