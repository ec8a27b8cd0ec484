use conv_engine::shape::{conv_transpose_output_size, num_elements};

#[test]
fn num_elements_is_the_product() {
    assert_eq!(num_elements(&[2, 3, 4, 5]), Some(120));
    assert_eq!(num_elements(&[]), Some(1));
    assert_eq!(num_elements(&[7]), Some(7));
}

#[test]
fn num_elements_with_a_zero_dimension() {
    assert_eq!(num_elements(&[usize::MAX, usize::MAX, 0]), Some(0));
    assert_eq!(num_elements(&[0, usize::MAX, usize::MAX]), Some(0));
}

#[test]
fn num_elements_that_does_not_fit() {
    assert_eq!(num_elements(&[usize::MAX, 2]), None);
    assert_eq!(num_elements(&[usize::MAX, 1, 1]), Some(usize::MAX));
}

#[test]
fn transpose_output_size_follows_the_formula() {
    // (4 - 1) * 1 + 1 * (3 - 1) + 1 + 0 - 2 * 1 = 4
    assert_eq!(conv_transpose_output_size(3, 1, 1, 0, 1, 4), Some(4));
    // (5 - 1) * 2 + 2 * (3 - 1) + 1 + 1 - 2 * 1 = 12
    assert_eq!(conv_transpose_output_size(3, 2, 1, 1, 2, 5), Some(12));
    // (2 - 1) * 3 + 1 * (2 - 1) + 1 + 0 - 0 = 5
    assert_eq!(conv_transpose_output_size(2, 3, 0, 0, 1, 2), Some(5));
}

#[test]
fn transpose_output_size_is_undefined_for_empty_input_or_kernel() {
    assert_eq!(conv_transpose_output_size(0, 1, 0, 0, 1, 4), None);
    assert_eq!(conv_transpose_output_size(3, 1, 0, 0, 1, 0), None);
}

#[test]
fn transpose_output_size_is_undefined_when_padding_exceeds_the_extent() {
    // extent before padding: (1 - 1) * 1 + 1 * (1 - 1) + 1 + 0 = 1 < 2 * 1
    assert_eq!(conv_transpose_output_size(1, 1, 1, 0, 1, 1), None);
    // extent 3, padding 1: 3 - 2 = 1
    assert_eq!(conv_transpose_output_size(3, 1, 1, 0, 1, 1), Some(1));
}

#[test]
fn transpose_output_size_is_undefined_on_overflow() {
    assert_eq!(conv_transpose_output_size(3, usize::MAX, 0, 0, 1, 3), None);
    assert_eq!(conv_transpose_output_size(usize::MAX, 1, 0, 0, 2, 1), None);
    assert_eq!(conv_transpose_output_size(1, 1, 0, usize::MAX, 1, 1), None);
}
