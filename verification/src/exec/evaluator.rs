//! Evaluators: what an expression becomes when it is compiled against a
//! schema, and what an evaluator yields on a page.

use vstd::prelude::*;
use crate::common::types::{lemma_size_bound, Ty, TyModel};
use crate::constant::VECTOR_SIZE;
use crate::err::{Error, TResult};
use crate::eval::number::{arithm_defined, arithm_value, comp_holds, Number};
use crate::eval::primitives::{
    candidates,
    filter_eq_cv,
    filter_eq_vc,
    filter_eq_vv,
    filter_ne_cv,
    filter_ne_vc,
    filter_ne_vv,
    filter_lt_cv,
    filter_lt_vc,
    filter_lt_vv,
    filter_le_cv,
    filter_le_vc,
    filter_le_vv,
    filter_gt_cv,
    filter_gt_vc,
    filter_gt_vv,
    filter_ge_cv,
    filter_ge_vc,
    filter_ge_vv,
    filtered,
    in_bounds,
    lemma_filtered,
    map_div_cv,
    map_div_vc,
    map_div_vv,
    map_is_defined,
    map_mul_cv,
    map_mul_vc,
    map_mul_vv,
    map_plus_cv,
    map_plus_vc,
    map_plus_vv,
    map_rem_cv,
    map_rem_vc,
    map_rem_vv,
    map_sub_cv,
    map_sub_vc,
    map_sub_vv,
    operand,
    sel_view,
    selects,
};
use crate::plan::expr::{ArithmOp, CompOp, Literal};
use crate::rows::minipage::{value_at, MiniPage};
use crate::rows::page::{selection_valid, Page};

verus! {

/// How the values of a type lie in a column, for the types whose values the
/// evaluators read: as a truth value, as a whole number of one, two, four or
/// eight bytes, or as the four or eight bytes of a floating-point number.
#[derive(Clone, Copy, PartialEq, Eq, Debug, Structural)]
pub enum Kind {
    Bool,
    Int1,
    Int2,
    Int4,
    Int8,
    Bits4,
    Bits8,
}

/// How the values of the type `ty` lie in a column, if an evaluator reads
/// them.
pub open spec fn kind_of(ty: TyModel) -> Option<Kind> {
    match ty {
        TyModel::Bool => Some(Kind::Bool),
        TyModel::Int1 => Some(Kind::Int1),
        TyModel::Int2 => Some(Kind::Int2),
        TyModel::Int4 => Some(Kind::Int4),
        TyModel::Int8 => Some(Kind::Int8),
        TyModel::Float4 => Some(Kind::Bits4),
        TyModel::Float8 => Some(Kind::Bits8),
        TyModel::Date => Some(Kind::Int4),
        TyModel::Time => Some(Kind::Int8),
        TyModel::Timestamp => Some(Kind::Int8),
        _ => None,
    }
}

impl Kind {
    /// Bytes of one value.
    pub open spec fn width(self) -> nat {
        match self {
            Kind::Bool => 1,
            Kind::Int1 => 1,
            Kind::Int2 => 2,
            Kind::Int4 => 4,
            Kind::Int8 => 8,
            Kind::Bits4 => 4,
            Kind::Bits8 => 8,
        }
    }

    /// Whether the kernels compute on values of this kind.
    pub open spec fn is_number(self) -> bool {
        self is Int1 || self is Int2 || self is Int4 || self is Int8
    }

    /// The least number of this kind.
    pub open spec fn lowest(self) -> int {
        match self {
            Kind::Int1 => i8::MIN as int,
            Kind::Int2 => i16::MIN as int,
            Kind::Int4 => i32::MIN as int,
            Kind::Int8 => i64::MIN as int,
            _ => 0,
        }
    }

    /// The greatest number of this kind.
    pub open spec fn highest(self) -> int {
        match self {
            Kind::Bool => 1,
            Kind::Int1 => i8::MAX as int,
            Kind::Int2 => i16::MAX as int,
            Kind::Int4 => i32::MAX as int,
            Kind::Int8 => i64::MAX as int,
            Kind::Bits4 => u32::MAX as int,
            Kind::Bits8 => u64::MAX as int,
        }
    }
}

/// The number that lies at row `row` in the bytes of a column of the kind
/// `kind`: 1 for true and 0 for false, the bits of a floating-point number as
/// a number without sign.
pub open spec fn cell(bytes: Seq<u8>, kind: Kind, row: int) -> int {
    match kind {
        Kind::Bool => if value_at::<bool>(bytes, row) {
            1
        } else {
            0
        },
        Kind::Int1 => value_at::<i8>(bytes, row) as int,
        Kind::Int2 => value_at::<i16>(bytes, row) as int,
        Kind::Int4 => value_at::<i32>(bytes, row) as int,
        Kind::Int8 => value_at::<i64>(bytes, row) as int,
        Kind::Bits4 => value_at::<u32>(bytes, row) as int,
        Kind::Bits8 => value_at::<u64>(bytes, row) as int,
    }
}

/// How the values of the type `ty` lie in a column, if an evaluator reads
/// them.
pub fn kind(ty: &Ty) -> (k: Option<Kind>)
    ensures
        k == kind_of(ty@),
        k matches Some(kind) ==> ty@.sized() && ty@.size_of() == kind.width(),
{
    match ty {
        Ty::Bool => Some(Kind::Bool),
        Ty::Int1 => Some(Kind::Int1),
        Ty::Int2 => Some(Kind::Int2),
        Ty::Int4 => Some(Kind::Int4),
        Ty::Int8 => Some(Kind::Int8),
        Ty::Float4 => Some(Kind::Bits4),
        Ty::Float8 => Some(Kind::Bits8),
        Ty::Date => Some(Kind::Int4),
        Ty::Time => Some(Kind::Int8),
        Ty::Timestamp => Some(Kind::Int8),
        _ => None,
    }
}

/// The forms of expression that are compiled and not yet evaluated.
#[derive(Clone, Copy, PartialEq, Eq, Debug, Structural)]
pub enum Form {
    Not,
    IsNull,
    IsNotNull,
    PlusSign,
    MinusSign,
    Cast,
    And,
    Or,
    Concat,
    /// Whether negated.
    Like(bool),
    /// Whether negated.
    SimilarTo(bool),
    /// Whether negated.
    RegexMatch(bool),
    Between,
    In,
    Case,
    IfThen,
    Row,
    /// Place of the function's body in the registry of functions.
    Call(usize),
}

/// What an evaluator stands for: the compiled expression without its
/// buffers.
pub enum EvalModel {
    /// The column at position `idx` of the page.
    Field { idx: int, ty: TyModel },
    /// The number `value` in every row.
    Const { ty: TyModel, value: int },
    /// The operator `op` on the values of `lhs` and `rhs`.
    Bin { ty: TyModel, op: ArithmOp, lhs: Box<EvalModel>, rhs: Box<EvalModel> },
    /// The comparison `op` of the values of `lhs` and `rhs`.
    Cmp { ty: TyModel, op: CompOp, lhs: Box<EvalModel>, rhs: Box<EvalModel> },
    /// Another form, on `args`.
    Other { form: Form, ty: TyModel, args: Seq<EvalModel> },
}

impl EvalModel {
    /// The type of the values.
    pub open spec fn ty(self) -> TyModel {
        match self {
            EvalModel::Field { ty, .. } => ty,
            EvalModel::Const { ty, .. } => ty,
            EvalModel::Bin { ty, .. } => ty,
            EvalModel::Cmp { ty, .. } => ty,
            EvalModel::Other { ty, .. } => ty,
        }
    }

    /// The number that the evaluator yields in row `row` of the page whose
    /// columns are `columns`, where it yields numbers.
    pub open spec fn value_on(self, columns: Seq<MiniPage>, row: int) -> int
        decreases self,
    {
        match self {
            EvalModel::Field { idx, ty } => cell(columns[idx].bytes(), kind_of(ty)->0, row),
            EvalModel::Const { value, .. } => value,
            EvalModel::Bin { op, lhs, rhs, .. } => arithm_value(
                op,
                lhs.value_on(columns, row),
                rhs.value_on(columns, row),
            ),
            _ => 0,
        }
    }

    /// Whether the operator of a `Bin` has a result in every row that is
    /// worked on.
    pub open spec fn bin_defined(self, columns: Seq<MiniPage>, active: Option<Seq<usize>>) -> bool
        recommends
            self is Bin,
    {
        forall|row: int|
            0 <= row < VECTOR_SIZE && selects(active, row) ==> arithm_defined(
                self->Bin_op,
                #[trigger] self->Bin_lhs.value_on(columns, row),
                self->Bin_rhs.value_on(columns, row),
                kind_of(self.ty())->0.lowest(),
                kind_of(self.ty())->0.highest(),
            )
    }

    /// The error with which the evaluator fails on a page with the columns
    /// `columns` and the active rows `active`, if it fails.
    ///
    /// A field fails with `UndefinedColumn` where the page has no such column
    /// or one of another width. An arithmetic operator fails as its left
    /// operand fails, else as its right one; with `UnsupportedFeature` where
    /// the kernels do not compute on its type; and with `InvalidExpression`
    /// where it has no result in a row that is worked on. Every other form but
    /// a constant fails with `NotImplemented`.
    pub open spec fn error_on(self, columns: Seq<MiniPage>, active: Option<Seq<usize>>) -> Option<
        Error,
    >
        decreases self,
    {
        match self {
            EvalModel::Field { idx, ty } => if 0 <= idx < columns.len() && ty.sized()
                && columns[idx].spec_width() == ty.size_of() {
                None
            } else {
                Some(Error::UndefinedColumn)
            },
            EvalModel::Const { .. } => None,
            EvalModel::Bin { ty, op, lhs, rhs } => if lhs.error_on(columns, active) is Some {
                lhs.error_on(columns, active)
            } else if rhs.error_on(columns, active) is Some {
                rhs.error_on(columns, active)
            } else if !(kind_of(ty) is Some && kind_of(ty)->0.is_number()) {
                Some(Error::UnsupportedFeature)
            } else if !self.bin_defined(columns, active) {
                Some(Error::InvalidExpression)
            } else {
                None
            },
            _ => Some(Error::NotImplemented),
        }
    }

    /// Those of `rows`, in their order, at which the comparison of a `Cmp`
    /// holds on the page whose columns are `columns`.
    pub open spec fn selected_on(self, columns: Seq<MiniPage>, rows: Seq<usize>) -> Seq<usize>
        recommends
            self is Cmp,
        decreases rows.len(),
    {
        if rows.len() == 0 {
            Seq::empty()
        } else {
            let rest = self.selected_on(columns, rows.drop_last());
            if comp_holds(
                self->Cmp_op,
                self->Cmp_lhs.value_on(columns, rows.last() as int),
                self->Cmp_rhs.value_on(columns, rows.last() as int),
            ) {
                rest.push(rows.last())
            } else {
                rest
            }
        }
    }

    /// The error with which the evaluator fails to filter a page with the
    /// columns `columns` and the active rows `active`, if it fails.
    ///
    /// A comparison fails as its left operand fails to yield its values, else
    /// as its right one, and with `UnsupportedFeature` where the kernels do
    /// not compare values of the operands' type. Every other form fails with
    /// `NotImplemented`.
    pub open spec fn filter_error_on(
        self,
        columns: Seq<MiniPage>,
        active: Option<Seq<usize>>,
    ) -> Option<Error> {
        match self {
            EvalModel::Cmp { lhs, rhs, .. } => if lhs.error_on(columns, active) is Some {
                lhs.error_on(columns, active)
            } else if rhs.error_on(columns, active) is Some {
                rhs.error_on(columns, active)
            } else if !(kind_of(lhs.ty()) is Some && kind_of(lhs.ty())->0.is_number()) {
                Some(Error::UnsupportedFeature)
            } else {
                None
            },
            _ => Some(Error::NotImplemented),
        }
    }

    /// Whether `column` is what the evaluator yields on a page with the
    /// columns `columns` and the active rows `active`: a field yields what the
    /// page's column holds; a constant yields its number in every row; an
    /// operator yields its results in the rows that are worked on, which are
    /// all rows or the active ones.
    pub open spec fn yields(
        self,
        columns: Seq<MiniPage>,
        active: Option<Seq<usize>>,
        column: MiniPage,
    ) -> bool {
        &&& column.wf()
        &&& self.ty().sized()
        &&& column.spec_width() == self.ty().size_of()
        &&& self matches EvalModel::Field { idx, .. } ==> column.bytes() == columns[idx].bytes()
        &&& kind_of(self.ty()) matches Some(kind) ==> forall|row: int|
            0 <= row < VECTOR_SIZE && (self is Const || selects(active, row)) ==> #[trigger] cell(
                column.bytes(),
                kind,
                row,
            ) == self.value_on(columns, row)
    }
}

/// Whether the numbers of the kind `kind` are the values of the type `T`.
pub open spec fn reads_as<T: Number>(kind: Kind) -> bool {
    &&& kind.is_number()
    &&& T::width() == kind.width()
    &&& T::lowest() == kind.lowest()
    &&& T::highest() == kind.highest()
    &&& forall|bytes: Seq<u8>, row: int| #[trigger]
        cell(bytes, kind, row) == value_at::<T>(bytes, row).value()
}

/// What an evaluator does: it yields a column for a page.
pub trait Evaluator {
    /// What the evaluator stands for.
    spec fn spec_model(&self) -> EvalModel;

    /// What holds of an evaluator that was compiled.
    spec fn spec_wf(&self) -> bool;

    /// Yields the column of the evaluator's values on `input`. The column is
    /// one of `input`, or a buffer of the evaluator that the next call
    /// overwrites.
    fn evaluate<'p>(&'p mut self, input: &'p Page) -> (r: TResult<&'p MiniPage>)
        requires
            old(self).spec_wf(),
            input.wf(),
        ensures
            final(self).spec_wf(),
            final(self).spec_model() == old(self).spec_model(),
            match r {
                Ok(column) => old(self).spec_model().error_on(input.columns(), input.active())
                    is None && old(self).spec_model().yields(
                    input.columns(),
                    input.active(),
                    *column,
                ),
                Err(e) => old(self).spec_model().error_on(input.columns(), input.active())
                    == Some(e),
            },
            r is Ok && old(self).spec_model() is Field ==> *r->Ok_0
                == input.columns()[old(self).spec_model()->Field_idx],
    ;

    /// The type of the values.
    fn ty(&self) -> (ty: &Ty)
        ensures
            ty@ == self.spec_model().ty(),
    ;
}

/// Evaluator of a field: yields the page's column at the field's position.
#[derive(Debug)]
pub struct FieldEvaluator {
    idx: usize,
    ty: Ty,
}

/// Evaluator of a constant: yields a column that holds the constant in every
/// row.
#[derive(Debug)]
pub struct ConstEvaluator {
    ty: Ty,
    result: MiniPage,
}

/// Evaluator of an arithmetic operator: yields, in a buffer of its own, the
/// operator's results on the values of its operands.
#[derive(Debug)]
pub struct BinEvaluator {
    ty: Ty,
    op: ArithmOp,
    lhs: Box<EvalNode>,
    rhs: Box<EvalNode>,
    result: MiniPage,
}

/// Evaluator of a comparison.
#[derive(Debug)]
pub struct CmpEvaluator {
    ty: Ty,
    op: CompOp,
    lhs: Box<EvalNode>,
    rhs: Box<EvalNode>,
}

/// Evaluator of a call of a function that takes no argument.
#[derive(Debug)]
pub struct NoArgFnEvaluator {
    f: usize,
    ty: Ty,
}

/// Evaluator of a call of a function that takes one argument.
#[derive(Debug)]
pub struct UnaryFnEvaluator {
    f: usize,
    ty: Ty,
    arg: Box<EvalNode>,
}

/// Evaluator of another form of expression.
#[derive(Debug)]
pub struct FormEvaluator {
    form: Form,
    ty: Ty,
    args: Vec<EvalNode>,
}

/// An evaluator: one of the kinds of evaluator.
#[derive(Debug)]
pub enum EvalNode {
    Field(FieldEvaluator),
    Const(ConstEvaluator),
    Bin(BinEvaluator),
    Cmp(CmpEvaluator),
    NoArgFn(NoArgFnEvaluator),
    UnaryFn(UnaryFnEvaluator),
    Form(FormEvaluator),
}

/// What the evaluators `nodes` stand for, one for one.
pub open spec fn models_of(nodes: Seq<EvalNode>) -> Seq<EvalModel>
    decreases nodes,
{
    Seq::new(
        nodes.len(),
        |i: int|
            if 0 <= i < nodes.len() {
                nodes[i].model()
            } else {
                EvalModel::Const { ty: TyModel::Bool, value: 0 }
            },
    )
}

/// Whether each of the evaluators `nodes` is well formed.
pub open spec fn nodes_wf(nodes: Seq<EvalNode>) -> bool
    decreases nodes,
{
    forall|i: int| 0 <= i < nodes.len() ==> (#[trigger] nodes[i]).wf()
}

impl FieldEvaluator {
    /// What the evaluator stands for.
    pub closed spec fn model(&self) -> EvalModel {
        EvalModel::Field { idx: self.idx as int, ty: self.ty@ }
    }

    /// The evaluator of the field at position `idx`, whose values have the
    /// type `ty`.
    pub fn new(idx: usize, ty: Ty) -> (e: FieldEvaluator)
        ensures
            e.model() == (EvalModel::Field { idx: idx as int, ty: ty@ }),
    {
        FieldEvaluator { idx, ty }
    }

    /// Yields the column of `input` at the field's position. Fails with
    /// `UndefinedColumn` where `input` has no such column or one of another
    /// width.
    pub fn eval<'p>(&self, input: &'p Page) -> (r: TResult<&'p MiniPage>)
        requires
            input.wf(),
        ensures
            match r {
                Ok(column) => self.model().error_on(input.columns(), input.active()) is None
                    && self.model().yields(input.columns(), input.active(), *column),
                Err(e) => self.model().error_on(input.columns(), input.active()) == Some(e),
            },
            r is Ok ==> *r->Ok_0 == input.columns()[self.model()->Field_idx],
    {
        if self.idx < input.minipage_num() && self.ty.is_sized() {
            let column = input.minipage(self.idx);
            if column.width() == self.ty.size_of() as usize {
                return Ok(column);
            }
        }
        Err(Error::UndefinedColumn)
    }
}

impl ConstEvaluator {
    /// What the evaluator stands for.
    pub closed spec fn model(&self) -> EvalModel {
        EvalModel::Const {
            ty: self.ty@,
            value: cell(self.result.bytes(), kind_of(self.ty@)->0, 0),
        }
    }

    /// What holds of every evaluator of a constant: its buffer holds the
    /// constant in every row.
    pub closed spec fn wf(&self) -> bool {
        &&& kind_of(self.ty@) is Some
        &&& self.ty@.sized()
        &&& self.result.wf()
        &&& self.result.spec_width() == self.ty@.size_of()
        &&& forall|row: int|
            0 <= row < VECTOR_SIZE ==> #[trigger] cell(
                self.result.bytes(),
                kind_of(self.ty@)->0,
                row,
            ) == cell(self.result.bytes(), kind_of(self.ty@)->0, 0)
    }

    /// The evaluator of the constant `literal`, as a value of the type `ty`.
    /// Fails with `UnsupportedFeature` where the literal is none of a kind
    /// that the evaluators read, and with `InvalidExpression` where the
    /// values of `ty` are not of the literal's kind.
    pub fn new(ty: Ty, literal: &Literal) -> (r: TResult<ConstEvaluator>)
        ensures
            match r {
                Ok(e) => const_error(ty@, *literal) is None && e.wf() && e.model()
                    == (EvalModel::Const { ty: ty@, value: literal_value(*literal) }),
                Err(e) => const_error(ty@, *literal) == Some(e),
            },
    {
        let k = match kind(&ty) {
            Some(k) => k,
            None => {
                return match literal {
                    Literal::Interval(_, _)
                    | Literal::Char(_)
                    | Literal::Text(_)
                    | Literal::Varchar(_)
                    | Literal::Blob(_) => Err(Error::UnsupportedFeature),
                    _ => Err(Error::InvalidExpression),
                };
            },
        };
        match (literal, k) {
            (Literal::Bool(v), Kind::Bool) => {
                let mut result = MiniPage::new(1);
                result.fill::<bool>(*v);
                proof {
                    assert forall|row: int| 0 <= row < VECTOR_SIZE implies #[trigger] cell(
                        result.bytes(),
                        k,
                        row,
                    ) == literal_value(*literal) by {
                        assert(result.value::<bool>(row) == *v);
                    }
                }
                Ok(ConstEvaluator { ty, result })
            },
            (Literal::Int1(v), Kind::Int1) => {
                let mut result = MiniPage::new(1);
                result.fill::<i8>(*v);
                proof {
                    assert forall|row: int| 0 <= row < VECTOR_SIZE implies #[trigger] cell(
                        result.bytes(),
                        k,
                        row,
                    ) == literal_value(*literal) by {
                        assert(result.value::<i8>(row) == *v);
                    }
                }
                Ok(ConstEvaluator { ty, result })
            },
            (Literal::Int2(v), Kind::Int2) => {
                let mut result = MiniPage::new(2);
                result.fill::<i16>(*v);
                proof {
                    assert forall|row: int| 0 <= row < VECTOR_SIZE implies #[trigger] cell(
                        result.bytes(),
                        k,
                        row,
                    ) == literal_value(*literal) by {
                        assert(result.value::<i16>(row) == *v);
                    }
                }
                Ok(ConstEvaluator { ty, result })
            },
            (Literal::Int4(v), Kind::Int4) | (Literal::Date(v), Kind::Int4) => {
                let mut result = MiniPage::new(4);
                result.fill::<i32>(*v);
                proof {
                    assert forall|row: int| 0 <= row < VECTOR_SIZE implies #[trigger] cell(
                        result.bytes(),
                        k,
                        row,
                    ) == literal_value(*literal) by {
                        assert(result.value::<i32>(row) == *v);
                    }
                }
                Ok(ConstEvaluator { ty, result })
            },
            (Literal::Int8(v), Kind::Int8)
            | (Literal::Time(v), Kind::Int8)
            | (Literal::Timestamp(v), Kind::Int8) => {
                let mut result = MiniPage::new(8);
                result.fill::<i64>(*v);
                proof {
                    assert forall|row: int| 0 <= row < VECTOR_SIZE implies #[trigger] cell(
                        result.bytes(),
                        k,
                        row,
                    ) == literal_value(*literal) by {
                        assert(result.value::<i64>(row) == *v);
                    }
                }
                Ok(ConstEvaluator { ty, result })
            },
            (Literal::Float4(v), Kind::Bits4) => {
                let mut result = MiniPage::new(4);
                result.fill::<u32>(*v);
                proof {
                    assert forall|row: int| 0 <= row < VECTOR_SIZE implies #[trigger] cell(
                        result.bytes(),
                        k,
                        row,
                    ) == literal_value(*literal) by {
                        assert(result.value::<u32>(row) == *v);
                    }
                }
                Ok(ConstEvaluator { ty, result })
            },
            (Literal::Float8(v), Kind::Bits8) => {
                let mut result = MiniPage::new(8);
                result.fill::<u64>(*v);
                proof {
                    assert forall|row: int| 0 <= row < VECTOR_SIZE implies #[trigger] cell(
                        result.bytes(),
                        k,
                        row,
                    ) == literal_value(*literal) by {
                        assert(result.value::<u64>(row) == *v);
                    }
                }
                Ok(ConstEvaluator { ty, result })
            },
            (Literal::Interval(_, _), _)
            | (Literal::Char(_), _)
            | (Literal::Text(_), _)
            | (Literal::Varchar(_), _)
            | (Literal::Blob(_), _) => Err(Error::UnsupportedFeature),
            _ => Err(Error::InvalidExpression),
        }
    }

    /// Yields the column that holds the constant in every row.
    pub fn eval(&self) -> (column: &MiniPage)
        requires
            self.wf(),
        ensures
            forall|columns: Seq<MiniPage>, active: Option<Seq<usize>>| #[trigger]
                self.model().yields(columns, active, *column),
    {
        &self.result
    }
}

/// How a literal lies in a column, if the evaluators read it.
pub open spec fn literal_kind(literal: Literal) -> Option<Kind> {
    match literal {
        Literal::Bool(_) => Some(Kind::Bool),
        Literal::Int1(_) => Some(Kind::Int1),
        Literal::Int2(_) => Some(Kind::Int2),
        Literal::Int4(_) => Some(Kind::Int4),
        Literal::Int8(_) => Some(Kind::Int8),
        Literal::Float4(_) => Some(Kind::Bits4),
        Literal::Float8(_) => Some(Kind::Bits8),
        Literal::Time(_) => Some(Kind::Int8),
        Literal::Date(_) => Some(Kind::Int4),
        Literal::Timestamp(_) => Some(Kind::Int8),
        _ => None,
    }
}

/// The number that a literal is read as: 1 for true and 0 for false, the bits
/// of a floating-point number as a number without sign.
pub open spec fn literal_value(literal: Literal) -> int {
    match literal {
        Literal::Bool(v) => if v {
            1
        } else {
            0
        },
        Literal::Int1(v) => v as int,
        Literal::Int2(v) => v as int,
        Literal::Int4(v) => v as int,
        Literal::Int8(v) => v as int,
        Literal::Float4(v) => v as int,
        Literal::Float8(v) => v as int,
        Literal::Time(v) => v as int,
        Literal::Date(v) => v as int,
        Literal::Timestamp(v) => v as int,
        _ => 0,
    }
}

/// The error with which the constant `literal` is refused as a value of the
/// type `ty`, if it is: `UnsupportedFeature` where the literal is none of a
/// kind that the evaluators read, `InvalidExpression` where the values of `ty`
/// are not of the literal's kind.
pub open spec fn const_error(ty: TyModel, literal: Literal) -> Option<Error> {
    if literal_kind(literal) is None {
        Some(Error::UnsupportedFeature)
    } else if kind_of(ty) != literal_kind(literal) {
        Some(Error::InvalidExpression)
    } else {
        None
    }
}

/// The error with which an arithmetic operator whose result has the type
/// `ty` is refused on operands of the types `lhs` and `rhs`, if it is:
/// `UnsupportedFeature` where the values of `ty` have no size,
/// `InvalidExpression` where an operand is of another type than the result.
pub open spec fn bin_error(ty: TyModel, lhs: TyModel, rhs: TyModel) -> Option<Error> {
    if !ty.sized() {
        Some(Error::UnsupportedFeature)
    } else if lhs != ty || rhs != ty {
        Some(Error::InvalidExpression)
    } else {
        None
    }
}

impl BinEvaluator {
    /// What the evaluator stands for.
    pub closed spec fn model(&self) -> EvalModel
        decreases self,
    {
        EvalModel::Bin {
            ty: self.ty@,
            op: self.op,
            lhs: Box::new(self.lhs.model()),
            rhs: Box::new(self.rhs.model()),
        }
    }

    /// What holds of every evaluator of an operator: its operands are well
    /// formed and of the type of its result, and its buffer is a column of
    /// that type.
    pub closed spec fn wf(&self) -> bool
        decreases self,
    {
        &&& self.lhs.wf()
        &&& self.rhs.wf()
        &&& self.ty@.sized()
        &&& self.lhs.model().ty() == self.ty@
        &&& self.rhs.model().ty() == self.ty@
        &&& self.result.wf()
        &&& self.result.spec_width() == self.ty@.size_of()
    }

    /// The evaluator of the operator `op` on `lhs` and `rhs`, whose result
    /// has the type `ty`, with a buffer for its results.
    pub fn new(ty: Ty, op: ArithmOp, lhs: EvalNode, rhs: EvalNode) -> (r: TResult<BinEvaluator>)
        requires
            lhs.wf(),
            rhs.wf(),
        ensures
            match r {
                Ok(e) => bin_error(ty@, lhs.model().ty(), rhs.model().ty()) is None && e.wf()
                    && e.model() == (EvalModel::Bin {
                    ty: ty@,
                    op,
                    lhs: Box::new(lhs.model()),
                    rhs: Box::new(rhs.model()),
                }),
                Err(e) => bin_error(ty@, lhs.model().ty(), rhs.model().ty()) == Some(e),
            },
    {
        if !ty.is_sized() {
            return Err(Error::UnsupportedFeature);
        }
        if !lhs.ty().same(&ty) || !rhs.ty().same(&ty) {
            return Err(Error::InvalidExpression);
        }
        proof {
            lemma_size_bound(ty@);
        }
        let result = MiniPage::new(ty.size_of() as usize);
        Ok(BinEvaluator { ty, op, lhs: Box::new(lhs), rhs: Box::new(rhs), result })
    }

    /// Evaluates both operands on `input` and applies the operator to their
    /// values, in every row or in the active rows of `input`, into the
    /// evaluator's buffer, which it yields.
    pub fn eval<'p>(&'p mut self, input: &'p Page) -> (r: TResult<&'p MiniPage>)
        requires
            old(self).wf(),
            input.wf(),
        ensures
            final(self).wf(),
            final(self).model() == old(self).model(),
            match r {
                Ok(column) => old(self).model().error_on(input.columns(), input.active())
                    is None && old(self).model().yields(
                    input.columns(),
                    input.active(),
                    *column,
                ),
                Err(e) => old(self).model().error_on(input.columns(), input.active()) == Some(e),
            },
        decreases *old(self),
    {
        let ghost node = self.model();
        let op: ArithmOp = self.op;
        let k: Option<Kind> = kind(&self.ty);
        let lconst: bool = self.lhs.is_const();
        let rconst: bool = self.rhs.is_const();
        let l = self.lhs.eval(input)?;
        let r = self.rhs.eval(input)?;
        let done: TResult<()> = match k {
            Some(Kind::Int1) => apply::<i8>(
                Ghost(node),
                Ghost(input.columns()),
                op,
                Kind::Int1,
                &mut self.result,
                l,
                lconst,
                r,
                rconst,
                input.selection(),
            ),
            Some(Kind::Int2) => apply::<i16>(
                Ghost(node),
                Ghost(input.columns()),
                op,
                Kind::Int2,
                &mut self.result,
                l,
                lconst,
                r,
                rconst,
                input.selection(),
            ),
            Some(Kind::Int4) => apply::<i32>(
                Ghost(node),
                Ghost(input.columns()),
                op,
                Kind::Int4,
                &mut self.result,
                l,
                lconst,
                r,
                rconst,
                input.selection(),
            ),
            Some(Kind::Int8) => apply::<i64>(
                Ghost(node),
                Ghost(input.columns()),
                op,
                Kind::Int8,
                &mut self.result,
                l,
                lconst,
                r,
                rconst,
                input.selection(),
            ),
            _ => Err(Error::UnsupportedFeature),
        };
        match done {
            Ok(_) => Ok(&self.result),
            Err(e) => Err(e),
        }
    }
}

/// Applies the operator `op` to the columns that the operands of `node`
/// yielded, into `res`. Fails with `InvalidExpression`, and leaves `res` as it
/// is, where the operator has no result in a row that is worked on.
fn apply<T: Number>(
    Ghost(node): Ghost<EvalModel>,
    Ghost(columns): Ghost<Seq<MiniPage>>,
    op: ArithmOp,
    kind: Kind,
    res: &mut MiniPage,
    lhs: &MiniPage,
    lconst: bool,
    rhs: &MiniPage,
    rconst: bool,
    selected: Option<&[usize]>,
) -> (r: TResult<()>)
    requires
        reads_as::<T>(kind),
        node is Bin,
        node->Bin_op == op,
        kind_of(node.ty()) == Some(kind),
        (*node->Bin_lhs).ty() == node.ty(),
        (*node->Bin_rhs).ty() == node.ty(),
        lconst == (*node->Bin_lhs is Const),
        rconst == (*node->Bin_rhs is Const),
        (*node->Bin_lhs).yields(columns, sel_view(selected), *lhs),
        (*node->Bin_rhs).yields(columns, sel_view(selected), *rhs),
        old(res).wf(),
        old(res).spec_width() == T::width(),
        in_bounds(sel_view(selected)),
    ensures
        final(res).wf(),
        final(res).spec_width() == old(res).spec_width(),
        match r {
            Ok(_) => node.bin_defined(columns, sel_view(selected)) && forall|row: int|
                0 <= row < VECTOR_SIZE && selects(sel_view(selected), row) ==> #[trigger] cell(
                    final(res).bytes(),
                    kind,
                    row,
                ) == node.value_on(columns, row),
            Err(e) => !node.bin_defined(columns, sel_view(selected)) && e is InvalidExpression,
        },
{
    let ghost active = sel_view(selected);
    let ghost l = *node->Bin_lhs;
    let ghost r = *node->Bin_rhs;
    // A constant operand is read as a column: it holds its number in every
    // row, so that the first row stands for all.
    let lc: bool = lconst && !rconst;
    proof {
        assert forall|row: int| 0 <= row < VECTOR_SIZE && selects(active, row) implies (
        #[trigger] operand(lhs.values::<T>(), lc, row)).value() == l.value_on(columns, row)
            && operand(rhs.values::<T>(), rconst, row).value() == r.value_on(columns, row) by {
            assert(lhs.values::<T>()[row] == lhs.value::<T>(row));
            assert(rhs.values::<T>()[row] == rhs.value::<T>(row));
            assert(lhs.values::<T>()[0] == lhs.value::<T>(0));
            assert(rhs.values::<T>()[0] == rhs.value::<T>(0));
            assert(cell(lhs.bytes(), kind, row) == l.value_on(columns, row));
            assert(cell(rhs.bytes(), kind, row) == r.value_on(columns, row));
            if l is Const {
                assert(cell(lhs.bytes(), kind, 0) == l.value_on(columns, 0));
            }
            if r is Const {
                assert(cell(rhs.bytes(), kind, 0) == r.value_on(columns, 0));
            }
        }
    }
    let defined = map_is_defined::<T>(op, lhs, lc, rhs, rconst, selected);
    proof {
        if defined {
            assert forall|row: int| 0 <= row < VECTOR_SIZE && selects(active, row) implies
                arithm_defined(
                op,
                #[trigger] l.value_on(columns, row),
                r.value_on(columns, row),
                kind.lowest(),
                kind.highest(),
            ) by {
                assert(operand(lhs.values::<T>(), lc, row).value() == l.value_on(columns, row));
            }
        } else {
            if node.bin_defined(columns, active) {
                assert forall|row: int| 0 <= row < VECTOR_SIZE && selects(active, row) implies
                    arithm_defined(
                    op,
                    (#[trigger] operand(lhs.values::<T>(), lc, row)).value(),
                    operand(rhs.values::<T>(), rconst, row).value(),
                    T::lowest(),
                    T::highest(),
                ) by {
                    assert(operand(lhs.values::<T>(), lc, row).value() == l.value_on(
                        columns,
                        row,
                    ));
                    assert(arithm_defined(
                        op,
                        l.value_on(columns, row),
                        r.value_on(columns, row),
                        kind.lowest(),
                        kind.highest(),
                    ));
                }
            }
        }
    }
    if !defined {
        return Err(Error::InvalidExpression);
    }
    match op {
        ArithmOp::Plus => {
            if rconst {
                map_plus_vc::<T>(res, lhs, rhs, selected);
            } else if lconst {
                map_plus_cv::<T>(res, lhs, rhs, selected);
            } else {
                map_plus_vv::<T>(res, lhs, rhs, selected);
            }
        },
        ArithmOp::Sub => {
            if rconst {
                map_sub_vc::<T>(res, lhs, rhs, selected);
            } else if lconst {
                map_sub_cv::<T>(res, lhs, rhs, selected);
            } else {
                map_sub_vv::<T>(res, lhs, rhs, selected);
            }
        },
        ArithmOp::Mul => {
            if rconst {
                map_mul_vc::<T>(res, lhs, rhs, selected);
            } else if lconst {
                map_mul_cv::<T>(res, lhs, rhs, selected);
            } else {
                map_mul_vv::<T>(res, lhs, rhs, selected);
            }
        },
        ArithmOp::Div => {
            if rconst {
                map_div_vc::<T>(res, lhs, rhs, selected);
            } else if lconst {
                map_div_cv::<T>(res, lhs, rhs, selected);
            } else {
                map_div_vv::<T>(res, lhs, rhs, selected);
            }
        },
        ArithmOp::Rem => {
            if rconst {
                map_rem_vc::<T>(res, lhs, rhs, selected);
            } else if lconst {
                map_rem_cv::<T>(res, lhs, rhs, selected);
            } else {
                map_rem_vv::<T>(res, lhs, rhs, selected);
            }
        },
    }
    proof {
        assert forall|row: int| 0 <= row < VECTOR_SIZE && selects(active, row) implies
            #[trigger] cell(res.bytes(), kind, row) == node.value_on(columns, row) by {
            assert(res.values::<T>()[row] == res.value::<T>(row));
            assert(operand(lhs.values::<T>(), lc, row).value() == l.value_on(columns, row));
            let a = l.value_on(columns, row);
            let b = r.value_on(columns, row);
            assert(arithm_defined(op, a, b, kind.lowest(), kind.highest()));
            T::lemma_number(operand(lhs.values::<T>(), lc, row), 0);
            if b != 0 {
                crate::eval::number::lemma_quotient_bound(a, b);
            }
            T::lemma_number(res.value::<T>(row), arithm_value(op, a, b));
        }
    }
    Ok(())
}

/// Selects, of the rows that a filter looks at, those at which the
/// comparison of `node` holds on the columns that its operands yielded, and
/// returns them in the order in which they were looked at.
fn choose_rows<T: Number>(
    Ghost(node): Ghost<EvalModel>,
    Ghost(columns): Ghost<Seq<MiniPage>>,
    op: CompOp,
    kind: Kind,
    lhs: &MiniPage,
    lconst: bool,
    rhs: &MiniPage,
    rconst: bool,
    selected: Option<&[usize]>,
    num: usize,
) -> (rows: Vec<usize>)
    requires
        reads_as::<T>(kind),
        node is Cmp,
        node->Cmp_op == op,
        kind_of((*node->Cmp_lhs).ty()) == Some(kind),
        (*node->Cmp_rhs).ty() == (*node->Cmp_lhs).ty(),
        lconst == (*node->Cmp_lhs is Const),
        rconst == (*node->Cmp_rhs is Const),
        (*node->Cmp_lhs).yields(columns, sel_view(selected), *lhs),
        (*node->Cmp_rhs).yields(columns, sel_view(selected), *rhs),
        num <= VECTOR_SIZE,
        selection_valid(sel_view(selected), num as nat),
    ensures
        rows@ == node.selected_on(columns, candidates(sel_view(selected), num as nat)),
        selection_valid(Some(rows@), num as nat),
{
    let ghost active = sel_view(selected);
    let ghost cands = candidates(active, num as nat);
    let total: usize = match selected {
        Some(s) => s.len(),
        None => num,
    };
    let lc: bool = lconst && !rconst;
    let mut out: Vec<usize> = vec![0usize; total];
    let res_sel: &mut [usize] = out.as_mut_slice();
    let n: usize = match op {
        CompOp::Eq => {
            if rconst {
                filter_eq_vc::<T>(res_sel, lhs, rhs, selected, num)
            } else if lconst {
                filter_eq_cv::<T>(res_sel, lhs, rhs, selected, num)
            } else {
                filter_eq_vv::<T>(res_sel, lhs, rhs, selected, num)
            }
        },
        CompOp::Ne => {
            if rconst {
                filter_ne_vc::<T>(res_sel, lhs, rhs, selected, num)
            } else if lconst {
                filter_ne_cv::<T>(res_sel, lhs, rhs, selected, num)
            } else {
                filter_ne_vv::<T>(res_sel, lhs, rhs, selected, num)
            }
        },
        CompOp::Lt => {
            if rconst {
                filter_lt_vc::<T>(res_sel, lhs, rhs, selected, num)
            } else if lconst {
                filter_lt_cv::<T>(res_sel, lhs, rhs, selected, num)
            } else {
                filter_lt_vv::<T>(res_sel, lhs, rhs, selected, num)
            }
        },
        CompOp::Le => {
            if rconst {
                filter_le_vc::<T>(res_sel, lhs, rhs, selected, num)
            } else if lconst {
                filter_le_cv::<T>(res_sel, lhs, rhs, selected, num)
            } else {
                filter_le_vv::<T>(res_sel, lhs, rhs, selected, num)
            }
        },
        CompOp::Gt => {
            if rconst {
                filter_gt_vc::<T>(res_sel, lhs, rhs, selected, num)
            } else if lconst {
                filter_gt_cv::<T>(res_sel, lhs, rhs, selected, num)
            } else {
                filter_gt_vv::<T>(res_sel, lhs, rhs, selected, num)
            }
        },
        CompOp::Ge => {
            if rconst {
                filter_ge_vc::<T>(res_sel, lhs, rhs, selected, num)
            } else if lconst {
                filter_ge_cv::<T>(res_sel, lhs, rhs, selected, num)
            } else {
                filter_ge_vv::<T>(res_sel, lhs, rhs, selected, num)
            }
        },
    };
    out.truncate(n);
    proof {
        let kept = filtered(op, lhs.values::<T>(), lc, rhs.values::<T>(), rconst, cands);
        lemma_filtered(op, lhs.values::<T>(), lc, rhs.values::<T>(), rconst, cands);
        assert(out@ =~= kept);
        let l = *node->Cmp_lhs;
        let r = *node->Cmp_rhs;
        assert forall|i: int| 0 <= i < cands.len() implies agree_at(
            node,
            columns,
            lhs.values::<T>(),
            lc,
            rhs.values::<T>(),
            rconst,
            #[trigger] cands[i],
        ) by {
            let row = cands[i] as int;
            assert(0 <= row < VECTOR_SIZE);
            assert(selects(active, row)) by {
                if active is Some {
                    assert(active->0[i] == row);
                }
            }
            assert(lhs.values::<T>()[row] == lhs.value::<T>(row));
            assert(rhs.values::<T>()[row] == rhs.value::<T>(row));
            assert(lhs.values::<T>()[0] == lhs.value::<T>(0));
            assert(rhs.values::<T>()[0] == rhs.value::<T>(0));
            assert(cell(lhs.bytes(), kind, row) == l.value_on(columns, row));
            assert(cell(rhs.bytes(), kind, row) == r.value_on(columns, row));
            if l is Const {
                assert(cell(lhs.bytes(), kind, 0) == l.value_on(columns, 0));
            }
            if r is Const {
                assert(cell(rhs.bytes(), kind, 0) == r.value_on(columns, 0));
            }
        }
        lemma_selected_on(node, columns, lhs.values::<T>(), lc, rhs.values::<T>(), rconst, cands);
        assert forall|i: int| 0 <= i < kept.len() implies kept[i] < num by {
            let w = cands.index_of(kept[i]);
            assert(cands[w] == kept[i]);
        }
    }
    out
}

/// Whether, at row `row`, the operands of a kernel are the numbers that the
/// operands of the comparison `node` yield.
pub open spec fn agree_at<T: Number>(
    node: EvalModel,
    columns: Seq<MiniPage>,
    lhs: Seq<T>,
    lconst: bool,
    rhs: Seq<T>,
    rconst: bool,
    row: usize,
) -> bool {
    &&& operand(lhs, lconst, row as int).value() == (*node->Cmp_lhs).value_on(columns, row as int)
    &&& operand(rhs, rconst, row as int).value() == (*node->Cmp_rhs).value_on(columns, row as int)
}

/// The rows that a filter kernel keeps on the columns that the operands of a
/// comparison yielded are the rows at which the comparison holds.
proof fn lemma_selected_on<T: Number>(
    node: EvalModel,
    columns: Seq<MiniPage>,
    lhs: Seq<T>,
    lconst: bool,
    rhs: Seq<T>,
    rconst: bool,
    rows: Seq<usize>,
)
    requires
        node is Cmp,
        forall|i: int|
            0 <= i < rows.len()
                ==> agree_at(node, columns, lhs, lconst, rhs, rconst, #[trigger] rows[i]),
    ensures
        filtered(node->Cmp_op, lhs, lconst, rhs, rconst, rows) == node.selected_on(columns, rows),
    decreases rows.len(),
{
    if rows.len() > 0 {
        let front = rows.drop_last();
        assert forall|i: int| 0 <= i < front.len() implies agree_at(
            node,
            columns,
            lhs,
            lconst,
            rhs,
            rconst,
            #[trigger] front[i],
        ) by {
            assert(front[i] == rows[i]);
        }
        lemma_selected_on(node, columns, lhs, lconst, rhs, rconst, front);
        assert(agree_at(node, columns, lhs, lconst, rhs, rconst, rows[rows.len() - 1]));
    }
}

impl CmpEvaluator {
    /// What the evaluator stands for.
    pub closed spec fn model(&self) -> EvalModel
        decreases self,
    {
        EvalModel::Cmp {
            ty: self.ty@,
            op: self.op,
            lhs: Box::new(self.lhs.model()),
            rhs: Box::new(self.rhs.model()),
        }
    }

    /// What holds of every evaluator of a comparison: its operands are well
    /// formed and of one type.
    pub closed spec fn wf(&self) -> bool
        decreases self,
    {
        &&& self.lhs.wf()
        &&& self.rhs.wf()
        &&& self.lhs.model().ty() == self.rhs.model().ty()
    }

    /// The evaluator of the comparison `op` of `lhs` and `rhs`, whose result
    /// has the type `ty`. Fails with `InvalidExpression` where the operands
    /// are of different types.
    pub fn new(ty: Ty, op: CompOp, lhs: EvalNode, rhs: EvalNode) -> (r: TResult<CmpEvaluator>)
        requires
            lhs.wf(),
            rhs.wf(),
        ensures
            match r {
                Ok(e) => lhs.model().ty() == rhs.model().ty() && e.wf() && e.model()
                    == (EvalModel::Cmp {
                    ty: ty@,
                    op,
                    lhs: Box::new(lhs.model()),
                    rhs: Box::new(rhs.model()),
                }),
                Err(e) => lhs.model().ty() != rhs.model().ty() && e is InvalidExpression,
            },
    {
        if !lhs.ty().same(rhs.ty()) {
            return Err(Error::InvalidExpression);
        }
        Ok(CmpEvaluator { ty, op, lhs: Box::new(lhs), rhs: Box::new(rhs) })
    }

    /// Evaluates both operands on `input` and selects the rows at which the
    /// comparison holds: of the rows of `input` that count, or of its active
    /// rows, in their order.
    pub fn select(&mut self, input: &Page) -> (r: TResult<Vec<usize>>)
        requires
            old(self).wf(),
            input.wf(),
        ensures
            final(self).wf(),
            final(self).model() == old(self).model(),
            match r {
                Ok(rows) => old(self).model().filter_error_on(input.columns(), input.active())
                    is None && rows@ == old(self).model().selected_on(
                    input.columns(),
                    candidates(input.active(), input.rows()),
                ) && selection_valid(Some(rows@), input.rows()),
                Err(e) => old(self).model().filter_error_on(input.columns(), input.active())
                    == Some(e),
            },
    {
        let ghost node = self.model();
        let op: CompOp = self.op;
        let k: Option<Kind> = kind(self.lhs.ty());
        let lconst: bool = self.lhs.is_const();
        let rconst: bool = self.rhs.is_const();
        let num: usize = input.value_count();
        let l = self.lhs.eval(input)?;
        let r = self.rhs.eval(input)?;
        match k {
            Some(Kind::Int1) => Ok(
                choose_rows::<i8>(
                    Ghost(node),
                    Ghost(input.columns()),
                    op,
                    Kind::Int1,
                    l,
                    lconst,
                    r,
                    rconst,
                    input.selection(),
                    num,
                ),
            ),
            Some(Kind::Int2) => Ok(
                choose_rows::<i16>(
                    Ghost(node),
                    Ghost(input.columns()),
                    op,
                    Kind::Int2,
                    l,
                    lconst,
                    r,
                    rconst,
                    input.selection(),
                    num,
                ),
            ),
            Some(Kind::Int4) => Ok(
                choose_rows::<i32>(
                    Ghost(node),
                    Ghost(input.columns()),
                    op,
                    Kind::Int4,
                    l,
                    lconst,
                    r,
                    rconst,
                    input.selection(),
                    num,
                ),
            ),
            Some(Kind::Int8) => Ok(
                choose_rows::<i64>(
                    Ghost(node),
                    Ghost(input.columns()),
                    op,
                    Kind::Int8,
                    l,
                    lconst,
                    r,
                    rconst,
                    input.selection(),
                    num,
                ),
            ),
            _ => Err(Error::UnsupportedFeature),
        }
    }
}

impl NoArgFnEvaluator {
    /// What the evaluator stands for.
    pub closed spec fn model(&self) -> EvalModel {
        EvalModel::Other { form: Form::Call(self.f), ty: self.ty@, args: Seq::empty() }
    }

    /// The evaluator of a call of the function whose body stands at place `f`
    /// in the registry of functions and whose result has the type `ty`.
    pub fn new(f: usize, ty: Ty) -> (e: NoArgFnEvaluator)
        ensures
            e.model() == (EvalModel::Other { form: Form::Call(f), ty: ty@, args: Seq::empty() }),
    {
        NoArgFnEvaluator { f, ty }
    }
}

impl UnaryFnEvaluator {
    /// What the evaluator stands for.
    pub closed spec fn model(&self) -> EvalModel
        decreases self,
    {
        EvalModel::Other { form: Form::Call(self.f), ty: self.ty@, args: seq![self.arg.model()] }
    }

    /// What holds of every evaluator of such a call: its argument is well
    /// formed.
    pub closed spec fn wf(&self) -> bool
        decreases self,
    {
        self.arg.wf()
    }

    /// The evaluator of a call, on `arg`, of the function whose body stands
    /// at place `f` in the registry of functions and whose result has the
    /// type `ty`.
    pub fn new(f: usize, ty: Ty, arg: EvalNode) -> (e: UnaryFnEvaluator)
        requires
            arg.wf(),
        ensures
            e.wf(),
            e.model() == (EvalModel::Other {
                form: Form::Call(f),
                ty: ty@,
                args: seq![arg.model()],
            }),
    {
        UnaryFnEvaluator { f, ty, arg: Box::new(arg) }
    }
}

impl FormEvaluator {
    /// What the evaluator stands for.
    pub closed spec fn model(&self) -> EvalModel
        decreases self,
    {
        EvalModel::Other { form: self.form, ty: self.ty@, args: models_of(self.args@) }
    }

    /// What holds of every evaluator of a form: its parts are well formed.
    pub closed spec fn wf(&self) -> bool
        decreases self,
    {
        nodes_wf(self.args@)
    }

    /// The evaluator of the form `form` on `args`, whose result has the type
    /// `ty`.
    pub fn new(form: Form, ty: Ty, args: Vec<EvalNode>) -> (e: FormEvaluator)
        requires
            nodes_wf(args@),
        ensures
            e.wf(),
            e.model() == (EvalModel::Other { form, ty: ty@, args: models_of(args@) }),
    {
        FormEvaluator { form, ty, args }
    }
}

impl EvalNode {
    /// What the evaluator stands for.
    pub open spec fn model(&self) -> EvalModel
        decreases self,
    {
        match self {
            EvalNode::Field(e) => e.model(),
            EvalNode::Const(e) => e.model(),
            EvalNode::Bin(e) => e.model(),
            EvalNode::Cmp(e) => e.model(),
            EvalNode::NoArgFn(e) => e.model(),
            EvalNode::UnaryFn(e) => e.model(),
            EvalNode::Form(e) => e.model(),
        }
    }

    /// What holds of an evaluator that was compiled.
    pub open spec fn wf(&self) -> bool
        decreases self,
    {
        match self {
            EvalNode::Field(e) => true,
            EvalNode::Const(e) => e.wf(),
            EvalNode::Bin(e) => e.wf(),
            EvalNode::Cmp(e) => e.wf(),
            EvalNode::NoArgFn(e) => true,
            EvalNode::UnaryFn(e) => e.wf(),
            EvalNode::Form(e) => e.wf(),
        }
    }

    /// Whether the evaluator is that of a constant.
    pub fn is_const(&self) -> (b: bool)
        ensures
            b == (self.model() is Const),
    {
        match self {
            EvalNode::Const(_) => true,
            _ => false,
        }
    }

    /// The type of the values.
    pub fn ty(&self) -> (ty: &Ty)
        ensures
            ty@ == self.model().ty(),
    {
        match self {
            EvalNode::Field(e) => &e.ty,
            EvalNode::Const(e) => &e.ty,
            EvalNode::Bin(e) => &e.ty,
            EvalNode::Cmp(e) => &e.ty,
            EvalNode::NoArgFn(e) => &e.ty,
            EvalNode::UnaryFn(e) => &e.ty,
            EvalNode::Form(e) => &e.ty,
        }
    }

    /// Yields the column of the evaluator's values on `input`. The column is
    /// one of `input`, or a buffer of the evaluator that the next call
    /// overwrites.
    pub fn eval<'p>(&'p mut self, input: &'p Page) -> (r: TResult<&'p MiniPage>)
        requires
            old(self).wf(),
            input.wf(),
        ensures
            final(self).wf(),
            final(self).model() == old(self).model(),
            match r {
                Ok(column) => old(self).model().error_on(input.columns(), input.active())
                    is None && old(self).model().yields(
                    input.columns(),
                    input.active(),
                    *column,
                ),
                Err(e) => old(self).model().error_on(input.columns(), input.active()) == Some(e),
            },
            r is Ok && old(self).model() is Field ==> *r->Ok_0
                == input.columns()[old(self).model()->Field_idx],
        decreases *old(self),
    {
        match self {
            EvalNode::Field(e) => e.eval(input),
            EvalNode::Const(e) => Ok(e.eval()),
            EvalNode::Bin(e) => e.eval(input),
            _ => Err(Error::NotImplemented),
        }
    }
}

impl EvalNode {
    /// Filters `page`: makes the rows at which the evaluator's comparison
    /// holds the active rows, of the rows that count or of the rows that were
    /// active, in their order. The columns stay as they are. Where it fails,
    /// the page stays as it is.
    pub fn filter(&mut self, page: &mut Page) -> (r: crate::err::Void)
        requires
            old(self).wf(),
            old(page).wf(),
        ensures
            final(self).wf(),
            final(self).model() == old(self).model(),
            final(page).wf(),
            final(page).columns() == old(page).columns(),
            final(page).rows() == old(page).rows(),
            match r {
                Ok(_) => old(self).model().filter_error_on(
                    old(page).columns(),
                    old(page).active(),
                ) is None && final(page).active() == Some(
                    old(self).model().selected_on(
                        old(page).columns(),
                        candidates(old(page).active(), old(page).rows()),
                    ),
                ),
                Err(e) => old(self).model().filter_error_on(
                    old(page).columns(),
                    old(page).active(),
                ) == Some(e) && final(page).active() == old(page).active(),
            },
    {
        match self {
            EvalNode::Cmp(e) => {
                match e.select(page) {
                    Ok(rows) => {
                        page.set_selection(rows);
                        Ok(())
                    },
                    Err(err) => Err(err),
                }
            },
            _ => Err(Error::NotImplemented),
        }
    }
}

impl Evaluator for EvalNode {
    open spec fn spec_model(&self) -> EvalModel {
        self.model()
    }

    open spec fn spec_wf(&self) -> bool {
        self.wf()
    }

    fn evaluate<'p>(&'p mut self, input: &'p Page) -> (r: TResult<&'p MiniPage>) {
        self.eval(input)
    }

    fn ty(&self) -> (ty: &Ty) {
        EvalNode::ty(self)
    }
}

impl Evaluator for FieldEvaluator {
    open spec fn spec_model(&self) -> EvalModel {
        self.model()
    }

    open spec fn spec_wf(&self) -> bool {
        true
    }

    fn evaluate<'p>(&'p mut self, input: &'p Page) -> (r: TResult<&'p MiniPage>) {
        self.eval(input)
    }

    fn ty(&self) -> (ty: &Ty) {
        &self.ty
    }
}

impl Evaluator for BinEvaluator {
    open spec fn spec_model(&self) -> EvalModel {
        self.model()
    }

    open spec fn spec_wf(&self) -> bool {
        self.wf()
    }

    fn evaluate<'p>(&'p mut self, input: &'p Page) -> (r: TResult<&'p MiniPage>) {
        self.eval(input)
    }

    fn ty(&self) -> (ty: &Ty) {
        &self.ty
    }
}

} // verus!
