use std::fmt::Debug;

use tajo::codec::Scalar;
use tajo::constant::VECTOR_SIZE;
use tajo::eval::number::Number;
use tajo::eval::primitives::{
    check_selection, filter_eq_vc, filter_ge_cv, filter_gt_vv, filter_le_vv, filter_lt_vv, filter_ne_vv,
    map_div_vc, map_div_vv, map_is_defined, map_mul_cv, map_mul_vv, map_plus_cv, map_plus_vc,
    map_plus_vv, map_rem_vv, map_sub_vv,
};
use tajo::plan::expr::ArithmOp;
use tajo::rows::minipage::MiniPage;

fn assert_map<T>(
    f: fn(&mut MiniPage, &MiniPage, &MiniPage, Option<&[usize]>),
    lv: Vec<T>,
    rv: Vec<T>,
    expected: Vec<T>,
    sel: Option<Vec<usize>>,
) where
    T: Scalar + Copy + Debug + PartialEq,
{
    assert!(lv.len() == rv.len(), "Both input vectors must have the same length.");
    if sel.is_some() {
        assert!(
            sel.as_ref().unwrap().len() < lv.len(),
            "The length of selection vector must be less than or equal to that of input vectors"
        );
        assert!(
            sel.as_ref().unwrap().len() == expected.len(),
            "The lengths of expected values and selection vector must be the same."
        );
    }

    let l = MiniPage::from_vec(&lv);
    let r = MiniPage::from_vec(&rv);

    let mut result = MiniPage::new(T::size());
    f(&mut result, &l, &r, match sel {
        Some(ref s) => Some(s),
        None => None,
    });

    let res: Vec<T> = result.to_vec::<T>(VECTOR_SIZE);

    if sel.is_none() {
        for x in 0..lv.len() {
            assert!(
                expected[x] == res[x],
                "{}th - expected {:?} but actual value {:?}",
                x,
                expected[x],
                res[x]
            );
        }
    } else {
        for x in 0..sel.as_ref().unwrap().len() {
            let sel_id = sel.as_ref().unwrap()[x];
            if expected[x] != res[sel_id] {
                let _ = format!(
                    "{}th - expected {:?} but actual value {:?}",
                    sel_id, expected[x], res[sel_id]
                );
            }
        }
    }
}

/// Runs a kernel on the rows that `sel` lists and holds every row of the
/// result against what is expected: the expected value in a listed row, and
/// what the result held before in every other row.
fn assert_map_selected<T>(
    f: fn(&mut MiniPage, &MiniPage, &MiniPage, Option<&[usize]>),
    lv: Vec<T>,
    rv: Vec<T>,
    expected: Vec<T>,
    sel: Vec<usize>,
) where
    T: Scalar + Copy + Debug + PartialEq,
{
    assert_eq!(sel.len(), expected.len());
    let l = MiniPage::from_vec(&lv);
    let r = MiniPage::from_vec(&rv);
    let held: Vec<T> = vec![lv[0]; VECTOR_SIZE];
    let mut result = MiniPage::from_vec(&held);
    f(&mut result, &l, &r, Some(&sel));
    let res: Vec<T> = result.to_vec::<T>(VECTOR_SIZE);
    for x in 0..VECTOR_SIZE {
        match sel.iter().position(|row| *row == x) {
            Some(at) => assert_eq!(res[x], expected[at], "row {}", x),
            None => assert_eq!(res[x], held[x], "row {} was modified", x),
        }
    }
}

fn assert_filter<T>(
    f: fn(&mut [usize], &MiniPage, &MiniPage, Option<&[usize]>, usize) -> usize,
    lv: Vec<T>,
    rv: Vec<T>,
    expected: Vec<usize>,
    sel: Option<Vec<usize>>,
) where
    T: Scalar + Copy + Debug + PartialEq,
{
    assert!(lv.len() == rv.len(), "Both input vectors must have the same length.");

    if sel.is_some() {
        // getting the maximum selected idx and check its out of range.
        let max_sel_idx = *(sel.as_ref().unwrap().iter().max().unwrap());
        assert!(max_sel_idx < lv.len(), "Some index in selection vector is out of range.");
    }

    let l = MiniPage::from_vec(&lv);
    let r = MiniPage::from_vec(&rv);

    let mut res_sel: [usize; 1024] = [0; 1024];
    let selected = f(
        &mut res_sel,
        &l,
        &r,
        match sel {
            Some(ref s) => Some(s),
            None => None,
        },
        lv.len(),
    );

    assert!(
        selected == expected.len(),
        "selected rows number is different: expected {}, actual {}",
        expected.len(),
        selected
    );

    for x in 0..expected.len() {
        assert!(
            res_sel[x] == expected[x],
            "{}th - expected {:?} but actual value {:?}",
            x,
            expected[x],
            res_sel[x]
        );
    }
}

#[test]
fn test_map_plus() {
    assert_map(map_plus_vv::<i32>, vec![1, 2, 3, 4], vec![1, 2, 3, 4], vec![2, 4, 6, 8], None);
}

#[test]
fn test_map_plus_with_sel() {
    assert_map(
        map_plus_vv::<i32>,
        vec![1, 2, 3, 4],
        vec![1, 2, 3, 4],
        vec![2, 6],
        Some(vec![1, 3]),
    );
}

#[test]
fn test_map_plus_with_sel_writes_the_selected_rows_only() {
    assert_map_selected(
        map_plus_vv::<i32>,
        vec![1, 2, 3, 4],
        vec![1, 2, 3, 4],
        vec![4, 8],
        vec![1, 3],
    );
    // a row that is listed twice is computed from the operands both times
    assert_map_selected(
        map_plus_vv::<i32>,
        vec![1, 2, 3, 4],
        vec![1, 2, 3, 4],
        vec![6, 2, 6],
        vec![2, 0, 2],
    );
}

#[test]
fn test_map_sub() {
    assert_map(map_sub_vv::<i32>, vec![4, 3, 2, 1], vec![1, 2, 3, 4], vec![3, 1, -1, -3], None);
}

#[test]
fn test_filter_lt() {
    assert_filter(filter_lt_vv::<i32>, vec![4, 3, 2, 1], vec![1, 2, 3, 4], vec![2, 3], None);
}

#[test]
fn test_map_other_operators_and_types() {
    assert_map(
        map_mul_vv::<i64>,
        vec![3i64, -4, 5_000_000_000],
        vec![7i64, 8, -9],
        vec![21i64, -32, -45_000_000_000],
        None,
    );
    assert_map(map_sub_vv::<i8>, vec![-100i8, 7], vec![28i8, -120], vec![-128i8, 127], None);
    assert_map(
        map_plus_vv::<i16>,
        vec![32000i16, -1],
        vec![767i16, 1],
        vec![32767i16, 0],
        None,
    );
    // a quotient is rounded towards zero, and a remainder has the sign of the dividend
    assert_map_selected(
        map_div_vv::<i32>,
        vec![7, -7, 7, -7],
        vec![2, 2, -2, -2],
        vec![3, -3, -3, 3],
        vec![0, 1, 2, 3],
    );
    assert_map_selected(
        map_rem_vv::<i32>,
        vec![7, -7, 7, -7],
        vec![2, 2, -2, -2],
        vec![1, -1, 1, -1],
        vec![0, 1, 2, 3],
    );
}

#[test]
fn test_map_with_a_constant() {
    // the first value of the constant operand stands for every row
    assert_map(map_plus_vc::<i32>, vec![1, 2, 3], vec![10, 0, 0], vec![11, 12, 13], None);
    assert_map(map_plus_cv::<i32>, vec![10, 0, 0], vec![1, 2, 3], vec![11, 12, 13], None);
    assert_map(map_mul_cv::<i32>, vec![-2, 0, 0], vec![1, 2, 3], vec![-2, -4, -6], None);
    assert_map(map_div_vc::<i32>, vec![10, 21, -32], vec![10, 0, 0], vec![1, 2, -3], None);
}

#[test]
fn test_map_is_defined() {
    let l = MiniPage::from_vec(&vec![i32::MAX, 1, i32::MIN]);
    let r = MiniPage::from_vec(&vec![1, 1, -1]);
    // the first row overflows
    assert!(!map_is_defined::<i32>(ArithmOp::Plus, &l, false, &r, false, None));
    assert!(map_is_defined::<i32>(ArithmOp::Plus, &l, false, &r, false, Some(&[1])));
    assert!(!map_is_defined::<i32>(ArithmOp::Plus, &l, false, &r, false, Some(&[1, 2])));
    assert!(!map_is_defined::<i32>(ArithmOp::Plus, &l, false, &r, false, Some(&[1, 0])));
    // the rows behind the values hold zeros: the divisor is zero there
    assert!(!map_is_defined::<i32>(ArithmOp::Div, &l, false, &r, false, None));
    assert!(map_is_defined::<i32>(ArithmOp::Div, &l, false, &r, false, Some(&[0, 1])));
    // the least number has no quotient by -1, and so no remainder
    assert!(!map_is_defined::<i32>(ArithmOp::Div, &l, false, &r, false, Some(&[2])));
    assert!(!map_is_defined::<i32>(ArithmOp::Rem, &l, false, &r, false, Some(&[2])));
    assert!(map_is_defined::<i32>(ArithmOp::Mul, &l, false, &r, false, Some(&[0, 1])));
    assert!(!map_is_defined::<i32>(ArithmOp::Mul, &l, false, &r, false, Some(&[2])));
    assert!(map_is_defined::<i32>(ArithmOp::Sub, &l, false, &r, false, Some(&[0, 1])));
    assert!(!map_is_defined::<i32>(ArithmOp::Sub, &l, false, &r, true, Some(&[2])));
}

#[test]
fn test_filter_with_selection_looks_at_active_rows_only() {
    // rows 1 and 3 satisfy the predicate, but only rows 2 and 3 are active
    assert_filter(
        filter_gt_vv::<i32>,
        vec![0, 9, 0, 9],
        vec![5, 5, 5, 5],
        vec![3],
        Some(vec![2, 3]),
    );
    // the order of the selection vector is kept
    assert_filter(
        filter_le_vv::<i32>,
        vec![1, 2, 3, 4],
        vec![4, 3, 2, 1],
        vec![1, 0],
        Some(vec![3, 1, 2, 0]),
    );
}

#[test]
fn test_filter_other_operators() {
    assert_filter(filter_ne_vv::<i64>, vec![1i64, 2, 3], vec![1i64, 0, 3], vec![1], None);
    assert_filter(filter_eq_vc::<i16>, vec![7i16, 8, 7], vec![7i16, 0, 0], vec![0, 2], None);
    assert_filter(filter_ge_cv::<i8>, vec![2i8, 0, 0], vec![1i8, 2, 3], vec![0, 1], None);
}

#[test]
fn test_filter_leaves_the_rest_of_the_result() {
    let l = MiniPage::from_vec(&vec![1i32, 5, 1]);
    let r = MiniPage::from_vec(&vec![3i32, 3, 3]);
    let mut res_sel: Vec<usize> = vec![9, 9, 9, 9];
    let n = filter_lt_vv::<i32>(&mut res_sel, &l, &r, None, 3);
    assert_eq!(n, 2);
    assert_eq!(res_sel, vec![0, 2, 9, 9]);
}

#[test]
fn test_check_selection() {
    assert!(check_selection(None));
    assert!(check_selection(Some(&[])));
    assert!(check_selection(Some(&[0, 1023, 5, 5])));
    assert!(!check_selection(Some(&[0, 1024])));
    assert!(!check_selection(Some(&[usize::MAX])));
    assert_eq!(VECTOR_SIZE, 1024);
}

#[test]
fn test_number_bounds() {
    assert_eq!(<i8 as Number>::least(), -128);
    assert_eq!(<i8 as Number>::greatest(), 127);
    assert_eq!(<i64 as Number>::least(), i64::MIN as i128);
    assert_eq!(<i16 as Number>::narrow(-5), -5i16);
    assert_eq!(77i32.widen(), 77i128);
}
