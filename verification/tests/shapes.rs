use td3::shape::{
    apply_linear, checked_element_count, is_matrix, is_vector, join_columns, same_shape,
};

#[test]
fn element_count_is_the_product_of_the_dimensions() {
    assert_eq!(checked_element_count(&vec![256, 4]), Some(1024));
    assert_eq!(checked_element_count(&vec![2, 3, 5]), Some(30));
    assert_eq!(checked_element_count(&vec![7]), Some(7));
}

#[test]
fn element_count_of_no_dimensions_is_one() {
    assert_eq!(checked_element_count(&vec![]), Some(1));
}

#[test]
fn element_count_with_a_zero_dimension_is_zero() {
    assert_eq!(checked_element_count(&vec![0]), Some(0));
    assert_eq!(checked_element_count(&vec![5, 0, 3]), Some(0));
    assert_eq!(checked_element_count(&vec![i64::MAX, i64::MAX, 0]), Some(0));
}

#[test]
fn element_count_refuses_a_negative_dimension() {
    assert_eq!(checked_element_count(&vec![-1]), None);
    assert_eq!(checked_element_count(&vec![3, -2]), None);
    assert_eq!(checked_element_count(&vec![0, -2]), None);
}

#[test]
fn element_count_refuses_what_does_not_fit() {
    assert_eq!(checked_element_count(&vec![i64::MAX, i64::MAX]), None);
    assert_eq!(checked_element_count(&vec![i64::MAX, 2, 2]), None);
    assert_eq!(checked_element_count(&vec![1 << 31, 1 << 31, 4]), None);
}

#[test]
fn same_shape_compares_every_dimension() {
    assert!(same_shape(&vec![], &vec![]));
    assert!(same_shape(&vec![8, 4], &vec![8, 4]));
    assert!(!same_shape(&vec![8, 4], &vec![8, 5]));
    assert!(!same_shape(&vec![8, 4], &vec![8]));
    assert!(!same_shape(&vec![8], &vec![8, 4]));
}

#[test]
fn linear_layer_replaces_the_last_dimension() {
    assert_eq!(apply_linear(&vec![8, 4], 4, 256), Some(vec![8, 256]));
    assert_eq!(apply_linear(&vec![4], 4, 2), Some(vec![2]));
    assert_eq!(apply_linear(&vec![3, 8, 4], 4, 1), Some(vec![3, 8, 1]));
}

#[test]
fn linear_layer_refuses_another_width() {
    assert_eq!(apply_linear(&vec![8, 5], 4, 256), None);
    assert_eq!(apply_linear(&vec![], 4, 256), None);
}

#[test]
fn columns_are_joined_along_dimension_one() {
    assert_eq!(join_columns(&vec![8, 4], &vec![8, 2]), Some(vec![8, 6]));
    assert_eq!(join_columns(&vec![8, 1], &vec![8, 1]), Some(vec![8, 2]));
    assert_eq!(join_columns(&vec![8, 1, 3], &vec![8, 5, 3]), Some(vec![8, 6, 3]));
}

#[test]
fn columns_are_not_joined_where_the_rows_differ() {
    assert_eq!(join_columns(&vec![8, 4], &vec![7, 2]), None);
    assert_eq!(join_columns(&vec![4], &vec![2]), None);
    assert_eq!(join_columns(&vec![8, 4], &vec![8, 2, 1]), None);
    assert_eq!(join_columns(&vec![8, 4, 3], &vec![8, 2, 4]), None);
    assert_eq!(join_columns(&vec![8, i64::MAX], &vec![8, 1]), None);
}

#[test]
fn matrices_and_vectors_are_told_by_their_dimensions() {
    assert!(is_matrix(&vec![8, 4], 8, 4));
    assert!(!is_matrix(&vec![4, 8], 8, 4));
    assert!(!is_matrix(&vec![8], 8, 4));
    assert!(!is_matrix(&vec![8, 4, 1], 8, 4));
    assert!(is_vector(&vec![3], 3));
    assert!(!is_vector(&vec![3, 1], 3));
    assert!(!is_vector(&vec![], 3));
    assert!(!is_vector(&vec![4], 3));
}
