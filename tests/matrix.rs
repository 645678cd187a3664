use jean_patrick::matrix::{Error, Matrix};

#[test]
fn constructors_work() {
    let m1 = Matrix::<i32>::new(3, 3, 2);
    let m2 = Matrix::<i32>::new_default(3, 3);
    let m3 = Matrix::<i32>::new_id(3);

    assert_eq!(*m1.get(1, 1).unwrap(), 2);
    assert_eq!(*m2.get(1, 1).unwrap(), i32::default());
    assert_eq!(*m3.get(1, 1).unwrap(), 1);
    assert_eq!(*m3.get(1, 2).unwrap(), 0);
}

#[test]
fn get_size_work() {
    let m = Matrix::<i32>::new(43, 674, 0);

    assert_eq!(m.get_size_i(), 43);
    assert_eq!(m.get_size_j(), 674);
}

#[test]
fn get_work() {
    let mut m = Matrix::<i32>::new_default(24, 54);

    assert_eq!(m.get(24, 3), None);
    assert_eq!(m.get_mut(3, 54), None);
}

#[test]
fn filled_matrix_reads_back_everywhere() {
    let m = Matrix::<i64>::new(4, 7, -5);
    for i in 0..4 {
        for j in 0..7 {
            assert_eq!(m.get(i, j), Some(&-5));
        }
    }
    assert_eq!(m.get(4, 0), None);
    assert_eq!(m.get(0, 7), None);
    assert_eq!(m.get(100, 100), None);
}

#[test]
fn empty_matrices_hold_nothing() {
    let m = Matrix::<i32>::new(0, 5, 1);
    assert_eq!(m.get_size_i(), 0);
    assert_eq!(m.get_size_j(), 5);
    assert_eq!(m.get(0, 0), None);
    let id = Matrix::<u8>::new_id(0);
    assert_eq!(id.get(0, 0), None);
}

#[test]
fn identity_has_ones_on_the_diagonal_only() {
    let m = Matrix::<u64>::new_id(5);
    for i in 0..5 {
        for j in 0..5 {
            let expected = if i == j { 1 } else { 0 };
            assert_eq!(m.get(i, j), Some(&expected));
        }
    }
    assert_eq!(m.get(5, 5), None);
}

#[test]
fn default_matrix_is_zero() {
    let m = Matrix::<usize>::new_default(2, 3);
    for i in 0..2 {
        for j in 0..3 {
            assert_eq!(m.get(i, j), Some(&0));
        }
    }
}

#[test]
fn get_mut_writes_one_slot() {
    let mut m = Matrix::<i32>::new(3, 4, 7);
    *m.get_mut(1, 2).unwrap() = 42;
    assert_eq!(m.get(1, 2), Some(&42));
    assert_eq!(m.get(2, 1), Some(&7));
    assert_eq!(m.get(1, 3), Some(&7));
    assert_eq!(m.get(0, 2), Some(&7));
    assert_eq!(m.get_size_i(), 3);
    assert_eq!(m.get_size_j(), 4);
}

#[test]
fn check_index_bounds() {
    let m = Matrix::<i32>::new_default(2, 3);
    assert!(m.check_index(1, 2));
    assert!(!m.check_index(2, 0));
    assert!(!m.check_index(0, 3));
}

#[test]
fn error_message() {
    assert_eq!(Error::Addition.message(), "You cannot add these two matrices");
}
