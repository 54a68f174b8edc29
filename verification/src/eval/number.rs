//! The numbers that the kernels compute on, and what each operator yields.

use vstd::prelude::*;
use crate::codec::Scalar;
use crate::plan::expr::{ArithmOp, CompOp};

verus! {

/// Quotient of `a` by `b`, rounded towards zero; `b` is not 0.
pub open spec fn trunc_div(a: int, b: int) -> int {
    if a >= 0 {
        a / b
    } else {
        -((-a) / b)
    }
}

/// What is left of `a` when `b` is taken from it `trunc_div(a, b)` times. It
/// has the sign of `a`.
pub open spec fn trunc_rem(a: int, b: int) -> int {
    if a >= 0 {
        a % b
    } else {
        -((-a) % b)
    }
}

/// What the operator `op` yields on `a` and `b`.
pub open spec fn arithm_value(op: ArithmOp, a: int, b: int) -> int {
    match op {
        ArithmOp::Plus => a + b,
        ArithmOp::Sub => a - b,
        ArithmOp::Mul => a * b,
        ArithmOp::Div => trunc_div(a, b),
        ArithmOp::Rem => trunc_rem(a, b),
    }
}

/// Whether the operator `op` has a result on `a` and `b` among the numbers
/// from `lo` to `hi`: the divisor is not 0, and the result, and for the
/// remainder also the quotient, lies in that range.
pub open spec fn arithm_defined(op: ArithmOp, a: int, b: int, lo: int, hi: int) -> bool {
    match op {
        ArithmOp::Div => b != 0 && lo <= trunc_div(a, b) <= hi,
        ArithmOp::Rem => b != 0 && lo <= trunc_div(a, b) <= hi,
        _ => lo <= arithm_value(op, a, b) <= hi,
    }
}

/// Whether `a` stands to `b` as the operator `op` says.
pub open spec fn comp_holds(op: CompOp, a: int, b: int) -> bool {
    match op {
        CompOp::Eq => a == b,
        CompOp::Ne => a != b,
        CompOp::Lt => a < b,
        CompOp::Le => a <= b,
        CompOp::Gt => a > b,
        CompOp::Ge => a >= b,
    }
}

/// A scalar type of whole numbers in a range.
pub trait Number: Scalar {
    /// The number that `self` is.
    spec fn value(self) -> int;

    /// The value of the type that is the number `v`.
    spec fn of(v: int) -> Self;

    /// The least number of the type.
    spec fn lowest() -> int;

    /// The greatest number of the type.
    spec fn highest() -> int;

    /// Every value is a number of the range, every number of the range is a
    /// value, and the range holds 0 and fits in 64 bits.
    proof fn lemma_number(x: Self, v: int)
        ensures
            Self::lowest() <= x.value() <= Self::highest(),
            Self::of(x.value()) == x,
            Self::lowest() <= v <= Self::highest() ==> Self::of(v).value() == v,
            -0x8000_0000_0000_0000 <= Self::lowest() <= 0,
            0 <= Self::highest() <= 0x7fff_ffff_ffff_ffff,
    ;

    /// The number that `self` is.
    fn widen(self) -> (w: i128)
        ensures
            w == self.value(),
    ;

    /// The value that is the number `w`.
    fn narrow(w: i128) -> (x: Self)
        requires
            Self::lowest() <= w <= Self::highest(),
        ensures
            x == Self::of(w as int),
    ;

    /// The least number of the type.
    fn least() -> (w: i128)
        ensures
            w == Self::lowest(),
    ;

    /// The greatest number of the type.
    fn greatest() -> (w: i128)
        ensures
            w == Self::highest(),
    ;
}

impl Number for i32 {
    open spec fn value(self) -> int {
        self as int
    }

    open spec fn of(v: int) -> i32 {
        v as i32
    }

    open spec fn lowest() -> int {
        i32::MIN as int
    }

    open spec fn highest() -> int {
        i32::MAX as int
    }

    proof fn lemma_number(x: i32, v: int) {
    }

    fn widen(self) -> (w: i128) {
        self as i128
    }

    fn narrow(w: i128) -> (x: i32) {
        w as i32
    }

    fn least() -> (w: i128) {
        i32::MIN as i128
    }

    fn greatest() -> (w: i128) {
        i32::MAX as i128
    }
}

impl Number for i8 {
    open spec fn value(self) -> int {
        self as int
    }

    open spec fn of(v: int) -> i8 {
        v as i8
    }

    open spec fn lowest() -> int {
        i8::MIN as int
    }

    open spec fn highest() -> int {
        i8::MAX as int
    }

    proof fn lemma_number(x: i8, v: int) {
    }

    fn widen(self) -> (w: i128) {
        self as i128
    }

    fn narrow(w: i128) -> (x: i8) {
        w as i8
    }

    fn least() -> (w: i128) {
        i8::MIN as i128
    }

    fn greatest() -> (w: i128) {
        i8::MAX as i128
    }
}

impl Number for i16 {
    open spec fn value(self) -> int {
        self as int
    }

    open spec fn of(v: int) -> i16 {
        v as i16
    }

    open spec fn lowest() -> int {
        i16::MIN as int
    }

    open spec fn highest() -> int {
        i16::MAX as int
    }

    proof fn lemma_number(x: i16, v: int) {
    }

    fn widen(self) -> (w: i128) {
        self as i128
    }

    fn narrow(w: i128) -> (x: i16) {
        w as i16
    }

    fn least() -> (w: i128) {
        i16::MIN as i128
    }

    fn greatest() -> (w: i128) {
        i16::MAX as i128
    }
}

impl Number for i64 {
    open spec fn value(self) -> int {
        self as int
    }

    open spec fn of(v: int) -> i64 {
        v as i64
    }

    open spec fn lowest() -> int {
        i64::MIN as int
    }

    open spec fn highest() -> int {
        i64::MAX as int
    }

    proof fn lemma_number(x: i64, v: int) {
    }

    fn widen(self) -> (w: i128) {
        self as i128
    }

    fn narrow(w: i128) -> (x: i64) {
        w as i64
    }

    fn least() -> (w: i128) {
        i64::MIN as i128
    }

    fn greatest() -> (w: i128) {
        i64::MAX as i128
    }
}

/// A quotient is no farther from zero than the dividend, and a remainder lies
/// between zero and the dividend.
pub proof fn lemma_quotient_bound(a: int, b: int)
    requires
        b != 0,
    ensures
        a >= 0 ==> -a <= trunc_div(a, b) <= a,
        a < 0 ==> a <= trunc_div(a, b) <= -a,
        a >= 0 ==> 0 <= trunc_rem(a, b) <= a,
        a < 0 ==> a <= trunc_rem(a, b) <= 0,
{
    if a >= 0 {
        assert(-a <= a / b <= a && 0 <= a % b <= a) by (nonlinear_arith)
            requires
                a >= 0,
                b != 0,
        ;
    } else {
        let c = -a;
        assert(-c <= c / b <= c && 0 <= c % b <= c) by (nonlinear_arith)
            requires
                c >= 0,
                b != 0,
        ;
    }
}

/// The product of two 64-bit numbers fits in 128 bits.
proof fn lemma_product_fits(a: int, b: int)
    requires
        -0x8000_0000_0000_0000 <= a <= 0x7fff_ffff_ffff_ffff,
        -0x8000_0000_0000_0000 <= b <= 0x7fff_ffff_ffff_ffff,
    ensures
        -0x4000_0000_0000_0000_0000_0000_0000_0000 <= a * b
            <= 0x4000_0000_0000_0000_0000_0000_0000_0000,
{
    assert(-0x4000_0000_0000_0000_0000_0000_0000_0000 <= a * b
        <= 0x4000_0000_0000_0000_0000_0000_0000_0000) by (nonlinear_arith)
        requires
            -0x8000_0000_0000_0000 <= a <= 0x7fff_ffff_ffff_ffff,
            -0x8000_0000_0000_0000 <= b <= 0x7fff_ffff_ffff_ffff,
    ;
}

/// What the operator `op` yields on `l` and `r`, where that is a number of the
/// type.
pub fn arithm_checked<T: Number>(op: ArithmOp, l: T, r: T) -> (out: Option<T>)
    ensures
        match out {
            Some(x) => arithm_defined(op, l.value(), r.value(), T::lowest(), T::highest()) && x
                == T::of(arithm_value(op, l.value(), r.value())),
            None => !arithm_defined(op, l.value(), r.value(), T::lowest(), T::highest()),
        },
{
    let a: i128 = l.widen();
    let b: i128 = r.widen();
    proof {
        T::lemma_number(l, 0);
        T::lemma_number(r, 0);
        lemma_product_fits(a as int, b as int);
        if b != 0 {
            lemma_quotient_bound(a as int, b as int);
        }
    }
    let v: i128 = match op {
        ArithmOp::Plus => a + b,
        ArithmOp::Sub => a - b,
        ArithmOp::Mul => a * b,
        ArithmOp::Div => {
            if b == 0 {
                return None;
            }
            a / b
        },
        ArithmOp::Rem => {
            if b == 0 {
                return None;
            }
            let q: i128 = a / b;
            if q < T::least() || q > T::greatest() {
                return None;
            }
            a % b
        },
    };
    if v < T::least() || v > T::greatest() {
        None
    } else {
        Some(T::narrow(v))
    }
}

/// What the operator `op` yields on `l` and `r`, on which it has a result.
pub fn arithm<T: Number>(op: ArithmOp, l: T, r: T) -> (out: T)
    requires
        arithm_defined(op, l.value(), r.value(), T::lowest(), T::highest()),
    ensures
        out == T::of(arithm_value(op, l.value(), r.value())),
{
    match arithm_checked(op, l, r) {
        Some(x) => x,
        None => l,
    }
}

/// Whether `l` stands to `r` as the operator `op` says.
pub fn compare<T: Number>(op: CompOp, l: T, r: T) -> (b: bool)
    ensures
        b == comp_holds(op, l.value(), r.value()),
{
    let a: i128 = l.widen();
    let b: i128 = r.widen();
    match op {
        CompOp::Eq => a == b,
        CompOp::Ne => a != b,
        CompOp::Lt => a < b,
        CompOp::Le => a <= b,
        CompOp::Gt => a > b,
        CompOp::Ge => a >= b,
    }
}

} // verus!
