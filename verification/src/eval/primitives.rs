//! Vectorized kernels: one operator applied to every row of two columns, or
//! to the rows that a selection vector lists.
//!
//! An operand is a column of which every row is taken (`v`), or a column of
//! which only the first row is taken, for every row (`c`). A kernel named
//! `_vv` takes two columns, `_vc` a column and a constant, `_cv` a constant
//! and a column.

use vstd::prelude::*;
use crate::constant::VECTOR_SIZE;
use crate::eval::number::{
    arithm,
    arithm_checked,
    arithm_defined,
    arithm_value,
    comp_holds,
    compare,
    Number,
};
use crate::plan::expr::{ArithmOp, CompOp};
use crate::rows::minipage::MiniPage;

verus! {

/// The rows that a selection vector lists, where there is one.
pub open spec fn sel_view(selected: Option<&[usize]>) -> Option<Seq<usize>> {
    match selected {
        Some(s) => Some(s@),
        None => None,
    }
}

/// The value of an operand at row `row`.
pub open spec fn operand<T>(column: Seq<T>, constant: bool, row: int) -> T {
    if constant {
        column[0]
    } else {
        column[row]
    }
}

/// Whether every row that the selection vector lists is a row of a column.
pub open spec fn in_bounds(selected: Option<Seq<usize>>) -> bool {
    match selected {
        Some(s) => forall|i: int| 0 <= i < s.len() ==> s[i] < VECTOR_SIZE,
        None => true,
    }
}

/// Whether every row that `selected` lists is a row of a column: what a
/// caller tests before it hands a selection vector to a kernel.
pub fn check_selection(selected: Option<&[usize]>) -> (b: bool)
    ensures
        b == in_bounds(sel_view(selected)),
{
    match selected {
        Some(s) => {
            let mut i: usize = 0;
            while i < s.len()
                invariant
                    i <= s@.len(),
                    selected == Some(s),
                    forall|j: int| 0 <= j < i ==> s@[j] < VECTOR_SIZE,
                decreases s@.len() - i,
            {
                if s[i] >= VECTOR_SIZE {
                    proof {
                        assert(sel_view(selected)->0[i as int] >= VECTOR_SIZE);
                    }
                    return false;
                }
                i = i + 1;
            }
            true
        },
        None => true,
    }
}

/// Number of steps that a kernel takes: one for each row of a column, or one
/// for each entry of the selection vector.
pub open spec fn steps(selected: Option<Seq<usize>>) -> nat {
    match selected {
        Some(s) => s.len(),
        None => VECTOR_SIZE as nat,
    }
}

/// Whether a kernel reaches row `row` in its first `n` steps.
pub open spec fn reached(selected: Option<Seq<usize>>, n: int, row: int) -> bool {
    match selected {
        Some(s) => exists|i: int| 0 <= i < n && i < s.len() && s[i] == row,
        None => 0 <= row < n,
    }
}

/// Whether a kernel works on row `row`: every row without a selection vector,
/// else the rows that the selection vector lists.
pub open spec fn selects(selected: Option<Seq<usize>>, row: int) -> bool {
    reached(selected, steps(selected) as int, row)
}

/// Whether the operator has a result on every row that the kernel works on.
pub open spec fn map_defined<T: Number>(
    op: ArithmOp,
    lhs: Seq<T>,
    lconst: bool,
    rhs: Seq<T>,
    rconst: bool,
    selected: Option<Seq<usize>>,
) -> bool {
    forall|row: int|
        0 <= row < VECTOR_SIZE && selects(selected, row) ==> arithm_defined(
            op,
            (#[trigger] operand(lhs, lconst, row)).value(),
            operand(rhs, rconst, row).value(),
            T::lowest(),
            T::highest(),
        )
}

/// The result column after the first `n` steps of a kernel: the operator's
/// result in the rows reached, the column `res` in the others.
pub open spec fn mapped_upto<T: Number>(
    op: ArithmOp,
    res: Seq<T>,
    lhs: Seq<T>,
    lconst: bool,
    rhs: Seq<T>,
    rconst: bool,
    selected: Option<Seq<usize>>,
    n: int,
) -> Seq<T> {
    Seq::new(
        VECTOR_SIZE as nat,
        |row: int|
            if reached(selected, n, row) {
                T::of(
                    arithm_value(
                        op,
                        operand(lhs, lconst, row).value(),
                        operand(rhs, rconst, row).value(),
                    ),
                )
            } else {
                res[row]
            },
    )
}

/// The result column of a kernel: the operator's result in the rows that the
/// kernel works on, the column `res` in the others.
pub open spec fn mapped<T: Number>(
    op: ArithmOp,
    res: Seq<T>,
    lhs: Seq<T>,
    lconst: bool,
    rhs: Seq<T>,
    rconst: bool,
    selected: Option<Seq<usize>>,
) -> Seq<T> {
    mapped_upto(op, res, lhs, lconst, rhs, rconst, selected, steps(selected) as int)
}

/// The row of step `i`.
fn row_of(selected: Option<&[usize]>, i: usize) -> (row: usize)
    requires
        in_bounds(sel_view(selected)),
        i < steps(sel_view(selected)),
    ensures
        row < VECTOR_SIZE,
        match selected {
            Some(s) => row == s@[i as int],
            None => row == i,
        },
{
    match selected {
        Some(s) => s[i],
        None => i,
    }
}

/// Number of steps of a kernel.
fn step_count(selected: Option<&[usize]>) -> (n: usize)
    ensures
        n == steps(sel_view(selected)),
{
    match selected {
        Some(s) => s.len(),
        None => VECTOR_SIZE,
    }
}

/// The value of an operand at row `row`.
fn operand_at<T: Number>(column: &MiniPage, constant: bool, row: usize) -> (v: T)
    requires
        column.wf(),
        column.spec_width() == T::width(),
        row < VECTOR_SIZE,
    ensures
        v == operand(column.values::<T>(), constant, row as int),
{
    if constant {
        column.get::<T>(0)
    } else {
        column.get::<T>(row)
    }
}

/// Whether the operator `op` has a result on every row that a kernel with
/// these operands works on: what a caller tests before it calls the kernel.
pub fn map_is_defined<T: Number>(
    op: ArithmOp,
    lhs: &MiniPage,
    lconst: bool,
    rhs: &MiniPage,
    rconst: bool,
    selected: Option<&[usize]>,
) -> (b: bool)
    requires
        lhs.wf(),
        rhs.wf(),
        lhs.spec_width() == T::width(),
        rhs.spec_width() == T::width(),
        in_bounds(sel_view(selected)),
    ensures
        b == map_defined(
            op,
            lhs.values::<T>(),
            lconst,
            rhs.values::<T>(),
            rconst,
            sel_view(selected),
        ),
{
    let n: usize = step_count(selected);
    let mut i: usize = 0;
    while i < n
        invariant
            i <= n,
            n == steps(sel_view(selected)),
            lhs.wf(),
            rhs.wf(),
            lhs.spec_width() == T::width(),
            rhs.spec_width() == T::width(),
            in_bounds(sel_view(selected)),
            forall|row: int|
                0 <= row < VECTOR_SIZE && reached(sel_view(selected), i as int, row)
                    ==> arithm_defined(
                    op,
                    (#[trigger] operand(lhs.values::<T>(), lconst, row)).value(),
                    operand(rhs.values::<T>(), rconst, row).value(),
                    T::lowest(),
                    T::highest(),
                ),
        decreases n - i,
    {
        let row: usize = row_of(selected, i);
        let l: T = operand_at::<T>(lhs, lconst, row);
        let r: T = operand_at::<T>(rhs, rconst, row);
        if arithm_checked(op, l, r).is_none() {
            proof {
                assert(reached(sel_view(selected), n as int, row as int));
            }
            return false;
        }
        i = i + 1;
    }
    true
}

/// Applies the operator `op` to the operands, row by row, into `res`.
fn map_kernel<T: Number>(
    op: ArithmOp,
    res: &mut MiniPage,
    lhs: &MiniPage,
    lconst: bool,
    rhs: &MiniPage,
    rconst: bool,
    selected: Option<&[usize]>,
)
    requires
        old(res).wf(),
        lhs.wf(),
        rhs.wf(),
        old(res).spec_width() == T::width(),
        lhs.spec_width() == T::width(),
        rhs.spec_width() == T::width(),
        in_bounds(sel_view(selected)),
        map_defined(op, lhs.values::<T>(), lconst, rhs.values::<T>(), rconst, sel_view(selected)),
    ensures
        final(res).wf(),
        final(res).spec_width() == old(res).spec_width(),
        final(res).values::<T>() == mapped(
            op,
            old(res).values::<T>(),
            lhs.values::<T>(),
            lconst,
            rhs.values::<T>(),
            rconst,
            sel_view(selected),
        ),
{
    let n: usize = step_count(selected);
    let mut i: usize = 0;
    proof {
        assert(res.values::<T>() =~= mapped_upto(
            op,
            old(res).values::<T>(),
            lhs.values::<T>(),
            lconst,
            rhs.values::<T>(),
            rconst,
            sel_view(selected),
            0,
        ));
    }
    while i < n
        invariant
            i <= n,
            n == steps(sel_view(selected)),
            res.wf(),
            lhs.wf(),
            rhs.wf(),
            res.spec_width() == T::width(),
            res.spec_width() == old(res).spec_width(),
            lhs.spec_width() == T::width(),
            rhs.spec_width() == T::width(),
            in_bounds(sel_view(selected)),
            map_defined(
                op,
                lhs.values::<T>(),
                lconst,
                rhs.values::<T>(),
                rconst,
                sel_view(selected),
            ),
            res.values::<T>() == mapped_upto(
                op,
                old(res).values::<T>(),
                lhs.values::<T>(),
                lconst,
                rhs.values::<T>(),
                rconst,
                sel_view(selected),
                i as int,
            ),
        decreases n - i,
    {
        let row: usize = row_of(selected, i);
        let l: T = operand_at::<T>(lhs, lconst, row);
        let r: T = operand_at::<T>(rhs, rconst, row);
        proof {
            assert(reached(sel_view(selected), n as int, row as int));
        }
        let v: T = arithm(op, l, r);
        let ghost before = res.values::<T>();
        res.put::<T>(row, v);
        proof {
            let after = mapped_upto(
                op,
                old(res).values::<T>(),
                lhs.values::<T>(),
                lconst,
                rhs.values::<T>(),
                rconst,
                sel_view(selected),
                i as int + 1,
            );
            assert forall|k: int| 0 <= k < VECTOR_SIZE implies before.update(row as int, v)[k]
                == after[k] by {
                if k == row {
                    assert(reached(sel_view(selected), i as int + 1, k));
                } else {
                    assert(reached(sel_view(selected), i as int + 1, k) == reached(
                        sel_view(selected),
                        i as int,
                        k,
                    ));
                }
            }
            assert(res.values::<T>() =~= after);
        }
        i = i + 1;
    }
}

/// Writes into `res` the sum of the rows of `lhs` and of `rhs`,
/// in every row, or in the rows that `selected` lists; the other rows of
/// `res` stay as they are.
pub fn map_plus_vv<T: Number>(
    res: &mut MiniPage,
    lhs: &MiniPage,
    rhs: &MiniPage,
    selected: Option<&[usize]>,
)
    requires
        old(res).wf(),
        lhs.wf(),
        rhs.wf(),
        old(res).spec_width() == T::width(),
        lhs.spec_width() == T::width(),
        rhs.spec_width() == T::width(),
        in_bounds(sel_view(selected)),
        map_defined(
            ArithmOp::Plus,
            lhs.values::<T>(),
            false,
            rhs.values::<T>(),
            false,
            sel_view(selected),
        ),
    ensures
        final(res).wf(),
        final(res).spec_width() == old(res).spec_width(),
        final(res).values::<T>() == mapped(
            ArithmOp::Plus,
            old(res).values::<T>(),
            lhs.values::<T>(),
            false,
            rhs.values::<T>(),
            false,
            sel_view(selected),
        ),
{
    map_kernel::<T>(ArithmOp::Plus, res, lhs, false, rhs, false, selected);
}

/// Writes into `res` the sum of the rows of `lhs` and the first value of `rhs`,
/// in every row, or in the rows that `selected` lists; the other rows of
/// `res` stay as they are.
pub fn map_plus_vc<T: Number>(
    res: &mut MiniPage,
    lhs: &MiniPage,
    rhs: &MiniPage,
    selected: Option<&[usize]>,
)
    requires
        old(res).wf(),
        lhs.wf(),
        rhs.wf(),
        old(res).spec_width() == T::width(),
        lhs.spec_width() == T::width(),
        rhs.spec_width() == T::width(),
        in_bounds(sel_view(selected)),
        map_defined(
            ArithmOp::Plus,
            lhs.values::<T>(),
            false,
            rhs.values::<T>(),
            true,
            sel_view(selected),
        ),
    ensures
        final(res).wf(),
        final(res).spec_width() == old(res).spec_width(),
        final(res).values::<T>() == mapped(
            ArithmOp::Plus,
            old(res).values::<T>(),
            lhs.values::<T>(),
            false,
            rhs.values::<T>(),
            true,
            sel_view(selected),
        ),
{
    map_kernel::<T>(ArithmOp::Plus, res, lhs, false, rhs, true, selected);
}

/// Writes into `res` the sum of the first value of `lhs` and the rows of `rhs`,
/// in every row, or in the rows that `selected` lists; the other rows of
/// `res` stay as they are.
pub fn map_plus_cv<T: Number>(
    res: &mut MiniPage,
    lhs: &MiniPage,
    rhs: &MiniPage,
    selected: Option<&[usize]>,
)
    requires
        old(res).wf(),
        lhs.wf(),
        rhs.wf(),
        old(res).spec_width() == T::width(),
        lhs.spec_width() == T::width(),
        rhs.spec_width() == T::width(),
        in_bounds(sel_view(selected)),
        map_defined(
            ArithmOp::Plus,
            lhs.values::<T>(),
            true,
            rhs.values::<T>(),
            false,
            sel_view(selected),
        ),
    ensures
        final(res).wf(),
        final(res).spec_width() == old(res).spec_width(),
        final(res).values::<T>() == mapped(
            ArithmOp::Plus,
            old(res).values::<T>(),
            lhs.values::<T>(),
            true,
            rhs.values::<T>(),
            false,
            sel_view(selected),
        ),
{
    map_kernel::<T>(ArithmOp::Plus, res, lhs, true, rhs, false, selected);
}

/// Writes into `res` the difference of the rows of `lhs` and of `rhs`,
/// in every row, or in the rows that `selected` lists; the other rows of
/// `res` stay as they are.
pub fn map_sub_vv<T: Number>(
    res: &mut MiniPage,
    lhs: &MiniPage,
    rhs: &MiniPage,
    selected: Option<&[usize]>,
)
    requires
        old(res).wf(),
        lhs.wf(),
        rhs.wf(),
        old(res).spec_width() == T::width(),
        lhs.spec_width() == T::width(),
        rhs.spec_width() == T::width(),
        in_bounds(sel_view(selected)),
        map_defined(
            ArithmOp::Sub,
            lhs.values::<T>(),
            false,
            rhs.values::<T>(),
            false,
            sel_view(selected),
        ),
    ensures
        final(res).wf(),
        final(res).spec_width() == old(res).spec_width(),
        final(res).values::<T>() == mapped(
            ArithmOp::Sub,
            old(res).values::<T>(),
            lhs.values::<T>(),
            false,
            rhs.values::<T>(),
            false,
            sel_view(selected),
        ),
{
    map_kernel::<T>(ArithmOp::Sub, res, lhs, false, rhs, false, selected);
}

/// Writes into `res` the difference of the rows of `lhs` and the first value
/// of `rhs`, in every row, or in the rows that `selected` lists; the other
/// rows of `res` stay as they are.
pub fn map_sub_vc<T: Number>(
    res: &mut MiniPage,
    lhs: &MiniPage,
    rhs: &MiniPage,
    selected: Option<&[usize]>,
)
    requires
        old(res).wf(),
        lhs.wf(),
        rhs.wf(),
        old(res).spec_width() == T::width(),
        lhs.spec_width() == T::width(),
        rhs.spec_width() == T::width(),
        in_bounds(sel_view(selected)),
        map_defined(
            ArithmOp::Sub,
            lhs.values::<T>(),
            false,
            rhs.values::<T>(),
            true,
            sel_view(selected),
        ),
    ensures
        final(res).wf(),
        final(res).spec_width() == old(res).spec_width(),
        final(res).values::<T>() == mapped(
            ArithmOp::Sub,
            old(res).values::<T>(),
            lhs.values::<T>(),
            false,
            rhs.values::<T>(),
            true,
            sel_view(selected),
        ),
{
    map_kernel::<T>(ArithmOp::Sub, res, lhs, false, rhs, true, selected);
}

/// Writes into `res` the difference of the first value of `lhs` and the rows
/// of `rhs`, in every row, or in the rows that `selected` lists; the other
/// rows of `res` stay as they are.
pub fn map_sub_cv<T: Number>(
    res: &mut MiniPage,
    lhs: &MiniPage,
    rhs: &MiniPage,
    selected: Option<&[usize]>,
)
    requires
        old(res).wf(),
        lhs.wf(),
        rhs.wf(),
        old(res).spec_width() == T::width(),
        lhs.spec_width() == T::width(),
        rhs.spec_width() == T::width(),
        in_bounds(sel_view(selected)),
        map_defined(
            ArithmOp::Sub,
            lhs.values::<T>(),
            true,
            rhs.values::<T>(),
            false,
            sel_view(selected),
        ),
    ensures
        final(res).wf(),
        final(res).spec_width() == old(res).spec_width(),
        final(res).values::<T>() == mapped(
            ArithmOp::Sub,
            old(res).values::<T>(),
            lhs.values::<T>(),
            true,
            rhs.values::<T>(),
            false,
            sel_view(selected),
        ),
{
    map_kernel::<T>(ArithmOp::Sub, res, lhs, true, rhs, false, selected);
}

/// Writes into `res` the product of the rows of `lhs` and of `rhs`,
/// in every row, or in the rows that `selected` lists; the other rows of
/// `res` stay as they are.
pub fn map_mul_vv<T: Number>(
    res: &mut MiniPage,
    lhs: &MiniPage,
    rhs: &MiniPage,
    selected: Option<&[usize]>,
)
    requires
        old(res).wf(),
        lhs.wf(),
        rhs.wf(),
        old(res).spec_width() == T::width(),
        lhs.spec_width() == T::width(),
        rhs.spec_width() == T::width(),
        in_bounds(sel_view(selected)),
        map_defined(
            ArithmOp::Mul,
            lhs.values::<T>(),
            false,
            rhs.values::<T>(),
            false,
            sel_view(selected),
        ),
    ensures
        final(res).wf(),
        final(res).spec_width() == old(res).spec_width(),
        final(res).values::<T>() == mapped(
            ArithmOp::Mul,
            old(res).values::<T>(),
            lhs.values::<T>(),
            false,
            rhs.values::<T>(),
            false,
            sel_view(selected),
        ),
{
    map_kernel::<T>(ArithmOp::Mul, res, lhs, false, rhs, false, selected);
}

/// Writes into `res` the product of the rows of `lhs` and the first value of
/// `rhs`, in every row, or in the rows that `selected` lists; the other rows
/// of `res` stay as they are.
pub fn map_mul_vc<T: Number>(
    res: &mut MiniPage,
    lhs: &MiniPage,
    rhs: &MiniPage,
    selected: Option<&[usize]>,
)
    requires
        old(res).wf(),
        lhs.wf(),
        rhs.wf(),
        old(res).spec_width() == T::width(),
        lhs.spec_width() == T::width(),
        rhs.spec_width() == T::width(),
        in_bounds(sel_view(selected)),
        map_defined(
            ArithmOp::Mul,
            lhs.values::<T>(),
            false,
            rhs.values::<T>(),
            true,
            sel_view(selected),
        ),
    ensures
        final(res).wf(),
        final(res).spec_width() == old(res).spec_width(),
        final(res).values::<T>() == mapped(
            ArithmOp::Mul,
            old(res).values::<T>(),
            lhs.values::<T>(),
            false,
            rhs.values::<T>(),
            true,
            sel_view(selected),
        ),
{
    map_kernel::<T>(ArithmOp::Mul, res, lhs, false, rhs, true, selected);
}

/// Writes into `res` the product of the first value of `lhs` and the rows of
/// `rhs`, in every row, or in the rows that `selected` lists; the other rows
/// of `res` stay as they are.
pub fn map_mul_cv<T: Number>(
    res: &mut MiniPage,
    lhs: &MiniPage,
    rhs: &MiniPage,
    selected: Option<&[usize]>,
)
    requires
        old(res).wf(),
        lhs.wf(),
        rhs.wf(),
        old(res).spec_width() == T::width(),
        lhs.spec_width() == T::width(),
        rhs.spec_width() == T::width(),
        in_bounds(sel_view(selected)),
        map_defined(
            ArithmOp::Mul,
            lhs.values::<T>(),
            true,
            rhs.values::<T>(),
            false,
            sel_view(selected),
        ),
    ensures
        final(res).wf(),
        final(res).spec_width() == old(res).spec_width(),
        final(res).values::<T>() == mapped(
            ArithmOp::Mul,
            old(res).values::<T>(),
            lhs.values::<T>(),
            true,
            rhs.values::<T>(),
            false,
            sel_view(selected),
        ),
{
    map_kernel::<T>(ArithmOp::Mul, res, lhs, true, rhs, false, selected);
}

/// Writes into `res` the quotient, rounded towards zero, of the rows of `lhs`
/// and of `rhs`, in every row, or in the rows that `selected` lists; the other
/// rows of `res` stay as they are.
pub fn map_div_vv<T: Number>(
    res: &mut MiniPage,
    lhs: &MiniPage,
    rhs: &MiniPage,
    selected: Option<&[usize]>,
)
    requires
        old(res).wf(),
        lhs.wf(),
        rhs.wf(),
        old(res).spec_width() == T::width(),
        lhs.spec_width() == T::width(),
        rhs.spec_width() == T::width(),
        in_bounds(sel_view(selected)),
        map_defined(
            ArithmOp::Div,
            lhs.values::<T>(),
            false,
            rhs.values::<T>(),
            false,
            sel_view(selected),
        ),
    ensures
        final(res).wf(),
        final(res).spec_width() == old(res).spec_width(),
        final(res).values::<T>() == mapped(
            ArithmOp::Div,
            old(res).values::<T>(),
            lhs.values::<T>(),
            false,
            rhs.values::<T>(),
            false,
            sel_view(selected),
        ),
{
    map_kernel::<T>(ArithmOp::Div, res, lhs, false, rhs, false, selected);
}

/// Writes into `res` the quotient, rounded towards zero, of the rows of `lhs`
/// and the first value of `rhs`, in every row, or in the rows that `selected`
/// lists; the other rows of `res` stay as they are.
pub fn map_div_vc<T: Number>(
    res: &mut MiniPage,
    lhs: &MiniPage,
    rhs: &MiniPage,
    selected: Option<&[usize]>,
)
    requires
        old(res).wf(),
        lhs.wf(),
        rhs.wf(),
        old(res).spec_width() == T::width(),
        lhs.spec_width() == T::width(),
        rhs.spec_width() == T::width(),
        in_bounds(sel_view(selected)),
        map_defined(
            ArithmOp::Div,
            lhs.values::<T>(),
            false,
            rhs.values::<T>(),
            true,
            sel_view(selected),
        ),
    ensures
        final(res).wf(),
        final(res).spec_width() == old(res).spec_width(),
        final(res).values::<T>() == mapped(
            ArithmOp::Div,
            old(res).values::<T>(),
            lhs.values::<T>(),
            false,
            rhs.values::<T>(),
            true,
            sel_view(selected),
        ),
{
    map_kernel::<T>(ArithmOp::Div, res, lhs, false, rhs, true, selected);
}

/// Writes into `res` the quotient, rounded towards zero, of the first value of
/// `lhs` and the rows of `rhs`, in every row, or in the rows that `selected`
/// lists; the other rows of `res` stay as they are.
pub fn map_div_cv<T: Number>(
    res: &mut MiniPage,
    lhs: &MiniPage,
    rhs: &MiniPage,
    selected: Option<&[usize]>,
)
    requires
        old(res).wf(),
        lhs.wf(),
        rhs.wf(),
        old(res).spec_width() == T::width(),
        lhs.spec_width() == T::width(),
        rhs.spec_width() == T::width(),
        in_bounds(sel_view(selected)),
        map_defined(
            ArithmOp::Div,
            lhs.values::<T>(),
            true,
            rhs.values::<T>(),
            false,
            sel_view(selected),
        ),
    ensures
        final(res).wf(),
        final(res).spec_width() == old(res).spec_width(),
        final(res).values::<T>() == mapped(
            ArithmOp::Div,
            old(res).values::<T>(),
            lhs.values::<T>(),
            true,
            rhs.values::<T>(),
            false,
            sel_view(selected),
        ),
{
    map_kernel::<T>(ArithmOp::Div, res, lhs, true, rhs, false, selected);
}

/// Writes into `res` the remainder of the rows of `lhs` and of `rhs`,
/// in every row, or in the rows that `selected` lists; the other rows of
/// `res` stay as they are.
pub fn map_rem_vv<T: Number>(
    res: &mut MiniPage,
    lhs: &MiniPage,
    rhs: &MiniPage,
    selected: Option<&[usize]>,
)
    requires
        old(res).wf(),
        lhs.wf(),
        rhs.wf(),
        old(res).spec_width() == T::width(),
        lhs.spec_width() == T::width(),
        rhs.spec_width() == T::width(),
        in_bounds(sel_view(selected)),
        map_defined(
            ArithmOp::Rem,
            lhs.values::<T>(),
            false,
            rhs.values::<T>(),
            false,
            sel_view(selected),
        ),
    ensures
        final(res).wf(),
        final(res).spec_width() == old(res).spec_width(),
        final(res).values::<T>() == mapped(
            ArithmOp::Rem,
            old(res).values::<T>(),
            lhs.values::<T>(),
            false,
            rhs.values::<T>(),
            false,
            sel_view(selected),
        ),
{
    map_kernel::<T>(ArithmOp::Rem, res, lhs, false, rhs, false, selected);
}

/// Writes into `res` the remainder of the rows of `lhs` and the first value of
/// `rhs`, in every row, or in the rows that `selected` lists; the other rows
/// of `res` stay as they are.
pub fn map_rem_vc<T: Number>(
    res: &mut MiniPage,
    lhs: &MiniPage,
    rhs: &MiniPage,
    selected: Option<&[usize]>,
)
    requires
        old(res).wf(),
        lhs.wf(),
        rhs.wf(),
        old(res).spec_width() == T::width(),
        lhs.spec_width() == T::width(),
        rhs.spec_width() == T::width(),
        in_bounds(sel_view(selected)),
        map_defined(
            ArithmOp::Rem,
            lhs.values::<T>(),
            false,
            rhs.values::<T>(),
            true,
            sel_view(selected),
        ),
    ensures
        final(res).wf(),
        final(res).spec_width() == old(res).spec_width(),
        final(res).values::<T>() == mapped(
            ArithmOp::Rem,
            old(res).values::<T>(),
            lhs.values::<T>(),
            false,
            rhs.values::<T>(),
            true,
            sel_view(selected),
        ),
{
    map_kernel::<T>(ArithmOp::Rem, res, lhs, false, rhs, true, selected);
}

/// Writes into `res` the remainder of the first value of `lhs` and the rows of
/// `rhs`, in every row, or in the rows that `selected` lists; the other rows
/// of `res` stay as they are.
pub fn map_rem_cv<T: Number>(
    res: &mut MiniPage,
    lhs: &MiniPage,
    rhs: &MiniPage,
    selected: Option<&[usize]>,
)
    requires
        old(res).wf(),
        lhs.wf(),
        rhs.wf(),
        old(res).spec_width() == T::width(),
        lhs.spec_width() == T::width(),
        rhs.spec_width() == T::width(),
        in_bounds(sel_view(selected)),
        map_defined(
            ArithmOp::Rem,
            lhs.values::<T>(),
            true,
            rhs.values::<T>(),
            false,
            sel_view(selected),
        ),
    ensures
        final(res).wf(),
        final(res).spec_width() == old(res).spec_width(),
        final(res).values::<T>() == mapped(
            ArithmOp::Rem,
            old(res).values::<T>(),
            lhs.values::<T>(),
            true,
            rhs.values::<T>(),
            false,
            sel_view(selected),
        ),
{
    map_kernel::<T>(ArithmOp::Rem, res, lhs, true, rhs, false, selected);
}

/// The rows that a filter looks at, in the order in which it does: those that
/// the selection vector lists, or without one the first `num` rows.
pub open spec fn candidates(selected: Option<Seq<usize>>, num: nat) -> Seq<usize> {
    match selected {
        Some(s) => s,
        None => Seq::new(num, |i: int| i as usize),
    }
}

/// Those of `rows`, in their order, at which the left operand stands to the
/// right one as the operator `op` says.
pub open spec fn filtered<T: Number>(
    op: CompOp,
    lhs: Seq<T>,
    lconst: bool,
    rhs: Seq<T>,
    rconst: bool,
    rows: Seq<usize>,
) -> Seq<usize>
    decreases rows.len(),
{
    if rows.len() == 0 {
        Seq::empty()
    } else {
        let rest = filtered(op, lhs, lconst, rhs, rconst, rows.drop_last());
        if comp_holds(
            op,
            operand(lhs, lconst, rows.last() as int).value(),
            operand(rhs, rconst, rows.last() as int).value(),
        ) {
            rest.push(rows.last())
        } else {
            rest
        }
    }
}

/// Whether every number in `rows` is less than the one after it.
pub open spec fn ascending(rows: Seq<usize>) -> bool {
    forall|i: int, j: int| 0 <= i < j < rows.len() ==> rows[i] < rows[j]
}

/// A filter keeps rows that it looked at and at which the comparison holds,
/// and no others; it keeps every such row; and it keeps them in the order in
/// which it looked at them, so that an ascending selection stays ascending.
pub proof fn lemma_filtered<T: Number>(
    op: CompOp,
    lhs: Seq<T>,
    lconst: bool,
    rhs: Seq<T>,
    rconst: bool,
    rows: Seq<usize>,
)
    ensures
        filtered(op, lhs, lconst, rhs, rconst, rows).len() <= rows.len(),
        forall|k: int|
            0 <= k < filtered(op, lhs, lconst, rhs, rconst, rows).len() ==> {
                let row = #[trigger] filtered(op, lhs, lconst, rhs, rconst, rows)[k];
                &&& rows.contains(row)
                &&& comp_holds(
                    op,
                    operand(lhs, lconst, row as int).value(),
                    operand(rhs, rconst, row as int).value(),
                )
            },
        forall|i: int|
            0 <= i < rows.len() && comp_holds(
                op,
                operand(lhs, lconst, rows[i] as int).value(),
                operand(rhs, rconst, rows[i] as int).value(),
            ) ==> filtered(op, lhs, lconst, rhs, rconst, rows).contains(#[trigger] rows[i]),
        ascending(rows) ==> ascending(filtered(op, lhs, lconst, rhs, rconst, rows)),
    decreases rows.len(),
{
    let out = filtered(op, lhs, lconst, rhs, rconst, rows);
    if rows.len() > 0 {
        let front = rows.drop_last();
        let rest = filtered(op, lhs, lconst, rhs, rconst, front);
        lemma_filtered(op, lhs, lconst, rhs, rconst, front);
        assert forall|k: int| 0 <= k < out.len() implies {
            let row = #[trigger] out[k];
            &&& rows.contains(row)
            &&& comp_holds(
                op,
                operand(lhs, lconst, row as int).value(),
                operand(rhs, rconst, row as int).value(),
            )
        } by {
            if k < rest.len() {
                assert(out[k] == rest[k]);
                let w = choose|w: int| 0 <= w < front.len() && front[w] == rest[k];
                assert(rows[w] == rest[k]);
            } else {
                assert(out[k] == rows[rows.len() - 1]);
            }
        }
        assert forall|i: int|
            0 <= i < rows.len() && comp_holds(
                op,
                operand(lhs, lconst, rows[i] as int).value(),
                operand(rhs, rconst, rows[i] as int).value(),
            ) implies out.contains(#[trigger] rows[i]) by {
            if i < front.len() {
                assert(front[i] == rows[i]);
                let w = choose|w: int| 0 <= w < rest.len() && rest[w] == front[i];
                assert(out[w] == rows[i]);
            } else {
                assert(out[out.len() - 1] == rows[i]);
            }
        }
        if ascending(rows) {
            assert(ascending(front)) by {
                assert forall|i: int, j: int| 0 <= i < j < front.len() implies front[i]
                    < front[j] by {
                    assert(rows[i] < rows[j]);
                }
            }
            assert forall|i: int, j: int| 0 <= i < j < out.len() implies out[i] < out[j] by {
                if j < rest.len() {
                    assert(out[i] == rest[i] && out[j] == rest[j]);
                } else {
                    assert(out[i] == rest[i]);
                    let w = choose|w: int| 0 <= w < front.len() && front[w] == rest[i];
                    assert(rows[w] < rows[rows.len() - 1]);
                }
            }
        }
    }
}

/// A filter without a selection vector selects rows in ascending order, and
/// a filter with an ascending selection vector keeps it ascending.
pub proof fn lemma_filter_ascending<T: Number>(
    op: CompOp,
    lhs: Seq<T>,
    lconst: bool,
    rhs: Seq<T>,
    rconst: bool,
    selected: Option<Seq<usize>>,
    num: nat,
)
    requires
        num <= usize::MAX,
        selected matches Some(s) ==> ascending(s),
    ensures
        ascending(filtered(op, lhs, lconst, rhs, rconst, candidates(selected, num))),
{
    lemma_filtered(op, lhs, lconst, rhs, rconst, candidates(selected, num));
}

/// The row that a filter looks at in step `i`.
fn candidate_at(selected: Option<&[usize]>, num: usize, i: usize) -> (row: usize)
    requires
        in_bounds(sel_view(selected)),
        num <= VECTOR_SIZE,
        i < candidates(sel_view(selected), num as nat).len(),
    ensures
        row < VECTOR_SIZE,
        row == candidates(sel_view(selected), num as nat)[i as int],
{
    match selected {
        Some(s) => s[i],
        None => i,
    }
}

/// Writes to the front of `res_sel` the rows at which the comparison holds,
/// and returns how many they are.
fn filter_kernel<T: Number>(
    op: CompOp,
    res_sel: &mut [usize],
    lhs: &MiniPage,
    lconst: bool,
    rhs: &MiniPage,
    rconst: bool,
    selected: Option<&[usize]>,
    num: usize,
) -> (n: usize)
    requires
        lhs.wf(),
        rhs.wf(),
        lhs.spec_width() == T::width(),
        rhs.spec_width() == T::width(),
        num <= VECTOR_SIZE,
        in_bounds(sel_view(selected)),
        candidates(sel_view(selected), num as nat).len() <= old(res_sel)@.len(),
    ensures
        n == filtered(
            op,
            lhs.values::<T>(),
            lconst,
            rhs.values::<T>(),
            rconst,
            candidates(sel_view(selected), num as nat),
        ).len(),
        final(res_sel)@ == filtered(
            op,
            lhs.values::<T>(),
            lconst,
            rhs.values::<T>(),
            rconst,
            candidates(sel_view(selected), num as nat),
        ) + old(res_sel)@.subrange(n as int, old(res_sel)@.len() as int),
{
    let total: usize = match selected {
        Some(s) => s.len(),
        None => num,
    };
    let ghost rows = candidates(sel_view(selected), num as nat);
    let mut i: usize = 0;
    let mut n: usize = 0;
    proof {
        assert(rows.take(0) =~= Seq::<usize>::empty());
        assert(res_sel@ =~= filtered(
            op,
            lhs.values::<T>(),
            lconst,
            rhs.values::<T>(),
            rconst,
            rows.take(0),
        ) + old(res_sel)@.subrange(0, old(res_sel)@.len() as int));
    }
    while i < total
        invariant
            i <= total,
            n <= i,
            total == rows.len(),
            rows == candidates(sel_view(selected), num as nat),
            lhs.wf(),
            rhs.wf(),
            lhs.spec_width() == T::width(),
            rhs.spec_width() == T::width(),
            num <= VECTOR_SIZE,
            in_bounds(sel_view(selected)),
            rows.len() <= old(res_sel)@.len(),
            res_sel@.len() == old(res_sel)@.len(),
            n == filtered(
                op,
                lhs.values::<T>(),
                lconst,
                rhs.values::<T>(),
                rconst,
                rows.take(i as int),
            ).len(),
            res_sel@ == filtered(
                op,
                lhs.values::<T>(),
                lconst,
                rhs.values::<T>(),
                rconst,
                rows.take(i as int),
            ) + old(res_sel)@.subrange(n as int, old(res_sel)@.len() as int),
        decreases total - i,
    {
        let row: usize = candidate_at(selected, num, i);
        let l: T = operand_at::<T>(lhs, lconst, row);
        let r: T = operand_at::<T>(rhs, rconst, row);
        let ghost before = res_sel@;
        let ghost kept = filtered(
            op,
            lhs.values::<T>(),
            lconst,
            rhs.values::<T>(),
            rconst,
            rows.take(i as int),
        );
        proof {
            assert(rows.take(i as int + 1).drop_last() =~= rows.take(i as int));
            assert(rows.take(i as int + 1).last() == row);
        }
        if compare(op, l, r) {
            res_sel[n] = row;
            proof {
                assert(res_sel@ =~= kept.push(row) + old(res_sel)@.subrange(
                    n as int + 1,
                    old(res_sel)@.len() as int,
                ));
            }
            n = n + 1;
        }
        i = i + 1;
    }
    proof {
        assert(rows.take(total as int) =~= rows);
    }
    n
}

/// Selects the rows in which the row of `lhs` is equal to that of `rhs`:
/// of the first `num` rows, or of the rows that `selected` lists. Their numbers
/// are written to the front of `res_sel`, in the order in which the rows were
/// looked at, and their count is returned; the rest of `res_sel` stays as it
/// is.
pub fn filter_eq_vv<T: Number>(
    res_sel: &mut [usize],
    lhs: &MiniPage,
    rhs: &MiniPage,
    selected: Option<&[usize]>,
    num: usize,
) -> (n: usize)
    requires
        lhs.wf(),
        rhs.wf(),
        lhs.spec_width() == T::width(),
        rhs.spec_width() == T::width(),
        num <= VECTOR_SIZE,
        in_bounds(sel_view(selected)),
        candidates(sel_view(selected), num as nat).len() <= old(res_sel)@.len(),
    ensures
        n == filtered(
            CompOp::Eq,
            lhs.values::<T>(),
            false,
            rhs.values::<T>(),
            false,
            candidates(sel_view(selected), num as nat),
        ).len(),
        final(res_sel)@ == filtered(
            CompOp::Eq,
            lhs.values::<T>(),
            false,
            rhs.values::<T>(),
            false,
            candidates(sel_view(selected), num as nat),
        ) + old(res_sel)@.subrange(n as int, old(res_sel)@.len() as int),
{
    filter_kernel::<T>(CompOp::Eq, res_sel, lhs, false, rhs, false, selected, num)
}

/// Selects the rows in which the row of `lhs` is equal to the first value of
/// `rhs`: of the first `num` rows, or of the rows that `selected` lists. Their
/// numbers are written to the front of `res_sel`, in the order in which the
/// rows were looked at, and their count is returned; the rest of `res_sel`
/// stays as it is.
pub fn filter_eq_vc<T: Number>(
    res_sel: &mut [usize],
    lhs: &MiniPage,
    rhs: &MiniPage,
    selected: Option<&[usize]>,
    num: usize,
) -> (n: usize)
    requires
        lhs.wf(),
        rhs.wf(),
        lhs.spec_width() == T::width(),
        rhs.spec_width() == T::width(),
        num <= VECTOR_SIZE,
        in_bounds(sel_view(selected)),
        candidates(sel_view(selected), num as nat).len() <= old(res_sel)@.len(),
    ensures
        n == filtered(
            CompOp::Eq,
            lhs.values::<T>(),
            false,
            rhs.values::<T>(),
            true,
            candidates(sel_view(selected), num as nat),
        ).len(),
        final(res_sel)@ == filtered(
            CompOp::Eq,
            lhs.values::<T>(),
            false,
            rhs.values::<T>(),
            true,
            candidates(sel_view(selected), num as nat),
        ) + old(res_sel)@.subrange(n as int, old(res_sel)@.len() as int),
{
    filter_kernel::<T>(CompOp::Eq, res_sel, lhs, false, rhs, true, selected, num)
}

/// Selects the rows in which the first value of `lhs` is equal to the row of
/// `rhs`: of the first `num` rows, or of the rows that `selected` lists. Their
/// numbers are written to the front of `res_sel`, in the order in which the
/// rows were looked at, and their count is returned; the rest of `res_sel`
/// stays as it is.
pub fn filter_eq_cv<T: Number>(
    res_sel: &mut [usize],
    lhs: &MiniPage,
    rhs: &MiniPage,
    selected: Option<&[usize]>,
    num: usize,
) -> (n: usize)
    requires
        lhs.wf(),
        rhs.wf(),
        lhs.spec_width() == T::width(),
        rhs.spec_width() == T::width(),
        num <= VECTOR_SIZE,
        in_bounds(sel_view(selected)),
        candidates(sel_view(selected), num as nat).len() <= old(res_sel)@.len(),
    ensures
        n == filtered(
            CompOp::Eq,
            lhs.values::<T>(),
            true,
            rhs.values::<T>(),
            false,
            candidates(sel_view(selected), num as nat),
        ).len(),
        final(res_sel)@ == filtered(
            CompOp::Eq,
            lhs.values::<T>(),
            true,
            rhs.values::<T>(),
            false,
            candidates(sel_view(selected), num as nat),
        ) + old(res_sel)@.subrange(n as int, old(res_sel)@.len() as int),
{
    filter_kernel::<T>(CompOp::Eq, res_sel, lhs, true, rhs, false, selected, num)
}

/// Selects the rows in which the row of `lhs` is not equal to that of `rhs`:
/// of the first `num` rows, or of the rows that `selected` lists. Their numbers
/// are written to the front of `res_sel`, in the order in which the rows were
/// looked at, and their count is returned; the rest of `res_sel` stays as it
/// is.
pub fn filter_ne_vv<T: Number>(
    res_sel: &mut [usize],
    lhs: &MiniPage,
    rhs: &MiniPage,
    selected: Option<&[usize]>,
    num: usize,
) -> (n: usize)
    requires
        lhs.wf(),
        rhs.wf(),
        lhs.spec_width() == T::width(),
        rhs.spec_width() == T::width(),
        num <= VECTOR_SIZE,
        in_bounds(sel_view(selected)),
        candidates(sel_view(selected), num as nat).len() <= old(res_sel)@.len(),
    ensures
        n == filtered(
            CompOp::Ne,
            lhs.values::<T>(),
            false,
            rhs.values::<T>(),
            false,
            candidates(sel_view(selected), num as nat),
        ).len(),
        final(res_sel)@ == filtered(
            CompOp::Ne,
            lhs.values::<T>(),
            false,
            rhs.values::<T>(),
            false,
            candidates(sel_view(selected), num as nat),
        ) + old(res_sel)@.subrange(n as int, old(res_sel)@.len() as int),
{
    filter_kernel::<T>(CompOp::Ne, res_sel, lhs, false, rhs, false, selected, num)
}

/// Selects the rows in which the row of `lhs` is not equal to the first value
/// of `rhs`: of the first `num` rows, or of the rows that `selected` lists.
/// Their numbers are written to the front of `res_sel`, in the order in which
/// the rows were looked at, and their count is returned; the rest of `res_sel`
/// stays as it is.
pub fn filter_ne_vc<T: Number>(
    res_sel: &mut [usize],
    lhs: &MiniPage,
    rhs: &MiniPage,
    selected: Option<&[usize]>,
    num: usize,
) -> (n: usize)
    requires
        lhs.wf(),
        rhs.wf(),
        lhs.spec_width() == T::width(),
        rhs.spec_width() == T::width(),
        num <= VECTOR_SIZE,
        in_bounds(sel_view(selected)),
        candidates(sel_view(selected), num as nat).len() <= old(res_sel)@.len(),
    ensures
        n == filtered(
            CompOp::Ne,
            lhs.values::<T>(),
            false,
            rhs.values::<T>(),
            true,
            candidates(sel_view(selected), num as nat),
        ).len(),
        final(res_sel)@ == filtered(
            CompOp::Ne,
            lhs.values::<T>(),
            false,
            rhs.values::<T>(),
            true,
            candidates(sel_view(selected), num as nat),
        ) + old(res_sel)@.subrange(n as int, old(res_sel)@.len() as int),
{
    filter_kernel::<T>(CompOp::Ne, res_sel, lhs, false, rhs, true, selected, num)
}

/// Selects the rows in which the first value of `lhs` is not equal to the row
/// of `rhs`: of the first `num` rows, or of the rows that `selected` lists.
/// Their numbers are written to the front of `res_sel`, in the order in which
/// the rows were looked at, and their count is returned; the rest of `res_sel`
/// stays as it is.
pub fn filter_ne_cv<T: Number>(
    res_sel: &mut [usize],
    lhs: &MiniPage,
    rhs: &MiniPage,
    selected: Option<&[usize]>,
    num: usize,
) -> (n: usize)
    requires
        lhs.wf(),
        rhs.wf(),
        lhs.spec_width() == T::width(),
        rhs.spec_width() == T::width(),
        num <= VECTOR_SIZE,
        in_bounds(sel_view(selected)),
        candidates(sel_view(selected), num as nat).len() <= old(res_sel)@.len(),
    ensures
        n == filtered(
            CompOp::Ne,
            lhs.values::<T>(),
            true,
            rhs.values::<T>(),
            false,
            candidates(sel_view(selected), num as nat),
        ).len(),
        final(res_sel)@ == filtered(
            CompOp::Ne,
            lhs.values::<T>(),
            true,
            rhs.values::<T>(),
            false,
            candidates(sel_view(selected), num as nat),
        ) + old(res_sel)@.subrange(n as int, old(res_sel)@.len() as int),
{
    filter_kernel::<T>(CompOp::Ne, res_sel, lhs, true, rhs, false, selected, num)
}

/// Selects the rows in which the row of `lhs` is less than that of `rhs`:
/// of the first `num` rows, or of the rows that `selected` lists. Their numbers
/// are written to the front of `res_sel`, in the order in which the rows were
/// looked at, and their count is returned; the rest of `res_sel` stays as it
/// is.
pub fn filter_lt_vv<T: Number>(
    res_sel: &mut [usize],
    lhs: &MiniPage,
    rhs: &MiniPage,
    selected: Option<&[usize]>,
    num: usize,
) -> (n: usize)
    requires
        lhs.wf(),
        rhs.wf(),
        lhs.spec_width() == T::width(),
        rhs.spec_width() == T::width(),
        num <= VECTOR_SIZE,
        in_bounds(sel_view(selected)),
        candidates(sel_view(selected), num as nat).len() <= old(res_sel)@.len(),
    ensures
        n == filtered(
            CompOp::Lt,
            lhs.values::<T>(),
            false,
            rhs.values::<T>(),
            false,
            candidates(sel_view(selected), num as nat),
        ).len(),
        final(res_sel)@ == filtered(
            CompOp::Lt,
            lhs.values::<T>(),
            false,
            rhs.values::<T>(),
            false,
            candidates(sel_view(selected), num as nat),
        ) + old(res_sel)@.subrange(n as int, old(res_sel)@.len() as int),
{
    filter_kernel::<T>(CompOp::Lt, res_sel, lhs, false, rhs, false, selected, num)
}

/// Selects the rows in which the row of `lhs` is less than the first value of
/// `rhs`: of the first `num` rows, or of the rows that `selected` lists. Their
/// numbers are written to the front of `res_sel`, in the order in which the
/// rows were looked at, and their count is returned; the rest of `res_sel`
/// stays as it is.
pub fn filter_lt_vc<T: Number>(
    res_sel: &mut [usize],
    lhs: &MiniPage,
    rhs: &MiniPage,
    selected: Option<&[usize]>,
    num: usize,
) -> (n: usize)
    requires
        lhs.wf(),
        rhs.wf(),
        lhs.spec_width() == T::width(),
        rhs.spec_width() == T::width(),
        num <= VECTOR_SIZE,
        in_bounds(sel_view(selected)),
        candidates(sel_view(selected), num as nat).len() <= old(res_sel)@.len(),
    ensures
        n == filtered(
            CompOp::Lt,
            lhs.values::<T>(),
            false,
            rhs.values::<T>(),
            true,
            candidates(sel_view(selected), num as nat),
        ).len(),
        final(res_sel)@ == filtered(
            CompOp::Lt,
            lhs.values::<T>(),
            false,
            rhs.values::<T>(),
            true,
            candidates(sel_view(selected), num as nat),
        ) + old(res_sel)@.subrange(n as int, old(res_sel)@.len() as int),
{
    filter_kernel::<T>(CompOp::Lt, res_sel, lhs, false, rhs, true, selected, num)
}

/// Selects the rows in which the first value of `lhs` is less than the row of
/// `rhs`: of the first `num` rows, or of the rows that `selected` lists. Their
/// numbers are written to the front of `res_sel`, in the order in which the
/// rows were looked at, and their count is returned; the rest of `res_sel`
/// stays as it is.
pub fn filter_lt_cv<T: Number>(
    res_sel: &mut [usize],
    lhs: &MiniPage,
    rhs: &MiniPage,
    selected: Option<&[usize]>,
    num: usize,
) -> (n: usize)
    requires
        lhs.wf(),
        rhs.wf(),
        lhs.spec_width() == T::width(),
        rhs.spec_width() == T::width(),
        num <= VECTOR_SIZE,
        in_bounds(sel_view(selected)),
        candidates(sel_view(selected), num as nat).len() <= old(res_sel)@.len(),
    ensures
        n == filtered(
            CompOp::Lt,
            lhs.values::<T>(),
            true,
            rhs.values::<T>(),
            false,
            candidates(sel_view(selected), num as nat),
        ).len(),
        final(res_sel)@ == filtered(
            CompOp::Lt,
            lhs.values::<T>(),
            true,
            rhs.values::<T>(),
            false,
            candidates(sel_view(selected), num as nat),
        ) + old(res_sel)@.subrange(n as int, old(res_sel)@.len() as int),
{
    filter_kernel::<T>(CompOp::Lt, res_sel, lhs, true, rhs, false, selected, num)
}

/// Selects the rows in which the row of `lhs` is at most that of `rhs`:
/// of the first `num` rows, or of the rows that `selected` lists. Their numbers
/// are written to the front of `res_sel`, in the order in which the rows were
/// looked at, and their count is returned; the rest of `res_sel` stays as it
/// is.
pub fn filter_le_vv<T: Number>(
    res_sel: &mut [usize],
    lhs: &MiniPage,
    rhs: &MiniPage,
    selected: Option<&[usize]>,
    num: usize,
) -> (n: usize)
    requires
        lhs.wf(),
        rhs.wf(),
        lhs.spec_width() == T::width(),
        rhs.spec_width() == T::width(),
        num <= VECTOR_SIZE,
        in_bounds(sel_view(selected)),
        candidates(sel_view(selected), num as nat).len() <= old(res_sel)@.len(),
    ensures
        n == filtered(
            CompOp::Le,
            lhs.values::<T>(),
            false,
            rhs.values::<T>(),
            false,
            candidates(sel_view(selected), num as nat),
        ).len(),
        final(res_sel)@ == filtered(
            CompOp::Le,
            lhs.values::<T>(),
            false,
            rhs.values::<T>(),
            false,
            candidates(sel_view(selected), num as nat),
        ) + old(res_sel)@.subrange(n as int, old(res_sel)@.len() as int),
{
    filter_kernel::<T>(CompOp::Le, res_sel, lhs, false, rhs, false, selected, num)
}

/// Selects the rows in which the row of `lhs` is at most the first value of
/// `rhs`: of the first `num` rows, or of the rows that `selected` lists. Their
/// numbers are written to the front of `res_sel`, in the order in which the
/// rows were looked at, and their count is returned; the rest of `res_sel`
/// stays as it is.
pub fn filter_le_vc<T: Number>(
    res_sel: &mut [usize],
    lhs: &MiniPage,
    rhs: &MiniPage,
    selected: Option<&[usize]>,
    num: usize,
) -> (n: usize)
    requires
        lhs.wf(),
        rhs.wf(),
        lhs.spec_width() == T::width(),
        rhs.spec_width() == T::width(),
        num <= VECTOR_SIZE,
        in_bounds(sel_view(selected)),
        candidates(sel_view(selected), num as nat).len() <= old(res_sel)@.len(),
    ensures
        n == filtered(
            CompOp::Le,
            lhs.values::<T>(),
            false,
            rhs.values::<T>(),
            true,
            candidates(sel_view(selected), num as nat),
        ).len(),
        final(res_sel)@ == filtered(
            CompOp::Le,
            lhs.values::<T>(),
            false,
            rhs.values::<T>(),
            true,
            candidates(sel_view(selected), num as nat),
        ) + old(res_sel)@.subrange(n as int, old(res_sel)@.len() as int),
{
    filter_kernel::<T>(CompOp::Le, res_sel, lhs, false, rhs, true, selected, num)
}

/// Selects the rows in which the first value of `lhs` is at most the row of
/// `rhs`: of the first `num` rows, or of the rows that `selected` lists. Their
/// numbers are written to the front of `res_sel`, in the order in which the
/// rows were looked at, and their count is returned; the rest of `res_sel`
/// stays as it is.
pub fn filter_le_cv<T: Number>(
    res_sel: &mut [usize],
    lhs: &MiniPage,
    rhs: &MiniPage,
    selected: Option<&[usize]>,
    num: usize,
) -> (n: usize)
    requires
        lhs.wf(),
        rhs.wf(),
        lhs.spec_width() == T::width(),
        rhs.spec_width() == T::width(),
        num <= VECTOR_SIZE,
        in_bounds(sel_view(selected)),
        candidates(sel_view(selected), num as nat).len() <= old(res_sel)@.len(),
    ensures
        n == filtered(
            CompOp::Le,
            lhs.values::<T>(),
            true,
            rhs.values::<T>(),
            false,
            candidates(sel_view(selected), num as nat),
        ).len(),
        final(res_sel)@ == filtered(
            CompOp::Le,
            lhs.values::<T>(),
            true,
            rhs.values::<T>(),
            false,
            candidates(sel_view(selected), num as nat),
        ) + old(res_sel)@.subrange(n as int, old(res_sel)@.len() as int),
{
    filter_kernel::<T>(CompOp::Le, res_sel, lhs, true, rhs, false, selected, num)
}

/// Selects the rows in which the row of `lhs` is greater than that of `rhs`:
/// of the first `num` rows, or of the rows that `selected` lists. Their numbers
/// are written to the front of `res_sel`, in the order in which the rows were
/// looked at, and their count is returned; the rest of `res_sel` stays as it
/// is.
pub fn filter_gt_vv<T: Number>(
    res_sel: &mut [usize],
    lhs: &MiniPage,
    rhs: &MiniPage,
    selected: Option<&[usize]>,
    num: usize,
) -> (n: usize)
    requires
        lhs.wf(),
        rhs.wf(),
        lhs.spec_width() == T::width(),
        rhs.spec_width() == T::width(),
        num <= VECTOR_SIZE,
        in_bounds(sel_view(selected)),
        candidates(sel_view(selected), num as nat).len() <= old(res_sel)@.len(),
    ensures
        n == filtered(
            CompOp::Gt,
            lhs.values::<T>(),
            false,
            rhs.values::<T>(),
            false,
            candidates(sel_view(selected), num as nat),
        ).len(),
        final(res_sel)@ == filtered(
            CompOp::Gt,
            lhs.values::<T>(),
            false,
            rhs.values::<T>(),
            false,
            candidates(sel_view(selected), num as nat),
        ) + old(res_sel)@.subrange(n as int, old(res_sel)@.len() as int),
{
    filter_kernel::<T>(CompOp::Gt, res_sel, lhs, false, rhs, false, selected, num)
}

/// Selects the rows in which the row of `lhs` is greater than the first value
/// of `rhs`: of the first `num` rows, or of the rows that `selected` lists.
/// Their numbers are written to the front of `res_sel`, in the order in which
/// the rows were looked at, and their count is returned; the rest of `res_sel`
/// stays as it is.
pub fn filter_gt_vc<T: Number>(
    res_sel: &mut [usize],
    lhs: &MiniPage,
    rhs: &MiniPage,
    selected: Option<&[usize]>,
    num: usize,
) -> (n: usize)
    requires
        lhs.wf(),
        rhs.wf(),
        lhs.spec_width() == T::width(),
        rhs.spec_width() == T::width(),
        num <= VECTOR_SIZE,
        in_bounds(sel_view(selected)),
        candidates(sel_view(selected), num as nat).len() <= old(res_sel)@.len(),
    ensures
        n == filtered(
            CompOp::Gt,
            lhs.values::<T>(),
            false,
            rhs.values::<T>(),
            true,
            candidates(sel_view(selected), num as nat),
        ).len(),
        final(res_sel)@ == filtered(
            CompOp::Gt,
            lhs.values::<T>(),
            false,
            rhs.values::<T>(),
            true,
            candidates(sel_view(selected), num as nat),
        ) + old(res_sel)@.subrange(n as int, old(res_sel)@.len() as int),
{
    filter_kernel::<T>(CompOp::Gt, res_sel, lhs, false, rhs, true, selected, num)
}

/// Selects the rows in which the first value of `lhs` is greater than the row
/// of `rhs`: of the first `num` rows, or of the rows that `selected` lists.
/// Their numbers are written to the front of `res_sel`, in the order in which
/// the rows were looked at, and their count is returned; the rest of `res_sel`
/// stays as it is.
pub fn filter_gt_cv<T: Number>(
    res_sel: &mut [usize],
    lhs: &MiniPage,
    rhs: &MiniPage,
    selected: Option<&[usize]>,
    num: usize,
) -> (n: usize)
    requires
        lhs.wf(),
        rhs.wf(),
        lhs.spec_width() == T::width(),
        rhs.spec_width() == T::width(),
        num <= VECTOR_SIZE,
        in_bounds(sel_view(selected)),
        candidates(sel_view(selected), num as nat).len() <= old(res_sel)@.len(),
    ensures
        n == filtered(
            CompOp::Gt,
            lhs.values::<T>(),
            true,
            rhs.values::<T>(),
            false,
            candidates(sel_view(selected), num as nat),
        ).len(),
        final(res_sel)@ == filtered(
            CompOp::Gt,
            lhs.values::<T>(),
            true,
            rhs.values::<T>(),
            false,
            candidates(sel_view(selected), num as nat),
        ) + old(res_sel)@.subrange(n as int, old(res_sel)@.len() as int),
{
    filter_kernel::<T>(CompOp::Gt, res_sel, lhs, true, rhs, false, selected, num)
}

/// Selects the rows in which the row of `lhs` is at least that of `rhs`:
/// of the first `num` rows, or of the rows that `selected` lists. Their numbers
/// are written to the front of `res_sel`, in the order in which the rows were
/// looked at, and their count is returned; the rest of `res_sel` stays as it
/// is.
pub fn filter_ge_vv<T: Number>(
    res_sel: &mut [usize],
    lhs: &MiniPage,
    rhs: &MiniPage,
    selected: Option<&[usize]>,
    num: usize,
) -> (n: usize)
    requires
        lhs.wf(),
        rhs.wf(),
        lhs.spec_width() == T::width(),
        rhs.spec_width() == T::width(),
        num <= VECTOR_SIZE,
        in_bounds(sel_view(selected)),
        candidates(sel_view(selected), num as nat).len() <= old(res_sel)@.len(),
    ensures
        n == filtered(
            CompOp::Ge,
            lhs.values::<T>(),
            false,
            rhs.values::<T>(),
            false,
            candidates(sel_view(selected), num as nat),
        ).len(),
        final(res_sel)@ == filtered(
            CompOp::Ge,
            lhs.values::<T>(),
            false,
            rhs.values::<T>(),
            false,
            candidates(sel_view(selected), num as nat),
        ) + old(res_sel)@.subrange(n as int, old(res_sel)@.len() as int),
{
    filter_kernel::<T>(CompOp::Ge, res_sel, lhs, false, rhs, false, selected, num)
}

/// Selects the rows in which the row of `lhs` is at least the first value of
/// `rhs`: of the first `num` rows, or of the rows that `selected` lists. Their
/// numbers are written to the front of `res_sel`, in the order in which the
/// rows were looked at, and their count is returned; the rest of `res_sel`
/// stays as it is.
pub fn filter_ge_vc<T: Number>(
    res_sel: &mut [usize],
    lhs: &MiniPage,
    rhs: &MiniPage,
    selected: Option<&[usize]>,
    num: usize,
) -> (n: usize)
    requires
        lhs.wf(),
        rhs.wf(),
        lhs.spec_width() == T::width(),
        rhs.spec_width() == T::width(),
        num <= VECTOR_SIZE,
        in_bounds(sel_view(selected)),
        candidates(sel_view(selected), num as nat).len() <= old(res_sel)@.len(),
    ensures
        n == filtered(
            CompOp::Ge,
            lhs.values::<T>(),
            false,
            rhs.values::<T>(),
            true,
            candidates(sel_view(selected), num as nat),
        ).len(),
        final(res_sel)@ == filtered(
            CompOp::Ge,
            lhs.values::<T>(),
            false,
            rhs.values::<T>(),
            true,
            candidates(sel_view(selected), num as nat),
        ) + old(res_sel)@.subrange(n as int, old(res_sel)@.len() as int),
{
    filter_kernel::<T>(CompOp::Ge, res_sel, lhs, false, rhs, true, selected, num)
}

/// Selects the rows in which the first value of `lhs` is at least the row of
/// `rhs`: of the first `num` rows, or of the rows that `selected` lists. Their
/// numbers are written to the front of `res_sel`, in the order in which the
/// rows were looked at, and their count is returned; the rest of `res_sel`
/// stays as it is.
pub fn filter_ge_cv<T: Number>(
    res_sel: &mut [usize],
    lhs: &MiniPage,
    rhs: &MiniPage,
    selected: Option<&[usize]>,
    num: usize,
) -> (n: usize)
    requires
        lhs.wf(),
        rhs.wf(),
        lhs.spec_width() == T::width(),
        rhs.spec_width() == T::width(),
        num <= VECTOR_SIZE,
        in_bounds(sel_view(selected)),
        candidates(sel_view(selected), num as nat).len() <= old(res_sel)@.len(),
    ensures
        n == filtered(
            CompOp::Ge,
            lhs.values::<T>(),
            true,
            rhs.values::<T>(),
            false,
            candidates(sel_view(selected), num as nat),
        ).len(),
        final(res_sel)@ == filtered(
            CompOp::Ge,
            lhs.values::<T>(),
            true,
            rhs.values::<T>(),
            false,
            candidates(sel_view(selected), num as nat),
        ) + old(res_sel)@.subrange(n as int, old(res_sel)@.len() as int),
{
    filter_kernel::<T>(CompOp::Ge, res_sel, lhs, true, rhs, false, selected, num)
}

} // verus!
