//! Expression trees, as the planner hands them to the engine, and the means
//! to walk them.

use vstd::prelude::*;
use crate::common::types::Ty;

verus! {

/// An expression: what it is made of, and the type of its value.
#[derive(Debug)]
pub struct Expr {
    pub out_ty: Ty,
    pub spec: ExprSpec,
}

impl Expr {
    /// The expression `spec` whose value has the type `out_ty`.
    pub fn new(out_ty: Ty, spec: ExprSpec) -> (e: Expr)
        ensures
            e.out_ty == out_ty,
            e.spec == spec,
    {
        Expr { out_ty, spec }
    }

    /// What the expression is made of.
    pub fn spec(&self) -> (spec: &ExprSpec)
        ensures
            *spec == self.spec,
    {
        &self.spec
    }

    /// The type of the expression's value.
    pub fn ty(&self) -> (ty: &Ty)
        ensures
            *ty == self.out_ty,
    {
        &self.out_ty
    }
}

/// What an expression is made of.
#[derive(Debug)]
pub enum ExprSpec {
    // Unary expressions
    Not(Box<Expr>),
    /// 'is null' if true, 'is not null' if false.
    IsNull(Box<Expr>, bool),
    /// Plus if true, minus if false.
    Sign(Box<Expr>, bool),
    /// The value, the type it has, the type it is to have.
    Cast(Box<Expr>, Box<Ty>, Box<Ty>),
    // Binary expressions
    And(Box<Expr>, Box<Expr>),
    Or(Box<Expr>, Box<Expr>),
    Comp(CompOp, Box<Expr>, Box<Expr>),
    Arithm(ArithmOp, Box<Expr>, Box<Expr>),
    Concat(Box<Expr>, Box<Expr>),
    // Functions
    Fn(Box<FnDecl>, Vec<Box<Expr>>),
    // Pattern matching predicates: the pattern, the value, whether negated
    Like(Box<Expr>, Box<Expr>, bool),
    SimilarTo(Box<Expr>, Box<Expr>, bool),
    RegexMatch(Box<Expr>, Box<Expr>, bool),
    // Other predicates
    /// The predicand, the begin, the end.
    Between(Box<Expr>, Box<Expr>, Box<Expr>),
    /// The predicand, the set.
    In(Box<Expr>, Vec<Box<Expr>>),
    // Conditions
    /// The conditions, the value otherwise.
    Case(Vec<Box<Expr>>, Box<Expr>),
    /// The condition, the value.
    IfThen(Box<Expr>, Box<Expr>),
    // Values
    Row(Vec<Box<Expr>>),
    Field(String),
    Const(Literal),
}

/// Comparison operator.
#[derive(Clone, Copy, PartialEq, Eq, Debug, Structural)]
pub enum CompOp {
    Eq,
    Ne,
    Lt,
    Le,
    Gt,
    Ge,
}

/// Arithmetic operator.
#[derive(Clone, Copy, PartialEq, Eq, Debug, Structural)]
pub enum ArithmOp {
    Plus,
    Sub,
    Mul,
    Div,
    Rem,
}

/// Declaration of a function.
#[derive(Debug)]
pub struct FnDecl {
    pub signature: String,
}

impl Clone for FnDecl {
    fn clone(&self) -> (d: FnDecl)
        ensures
            d == *self,
    {
        FnDecl { signature: self.signature.clone() }
    }
}

/// A single value. A floating-point number is held by its bits.
#[derive(Debug)]
pub enum Literal {
    Bool(bool),
    Int1(i8),
    Int2(i16),
    Int4(i32),
    Int8(i64),
    Float4(u32),
    Float8(u64),
    Time(i64),
    Date(i32),
    Timestamp(i64),
    Interval(i64, i32),
    Char(String),
    Text(String),
    Varchar(String),
    Blob(Vec<u8>),
}

impl Clone for Literal {
    fn clone(&self) -> (l: Literal)
        ensures
            same_literal(*self, l),
    {
        match self {
            Literal::Bool(v) => Literal::Bool(*v),
            Literal::Int1(v) => Literal::Int1(*v),
            Literal::Int2(v) => Literal::Int2(*v),
            Literal::Int4(v) => Literal::Int4(*v),
            Literal::Int8(v) => Literal::Int8(*v),
            Literal::Float4(v) => Literal::Float4(*v),
            Literal::Float8(v) => Literal::Float8(*v),
            Literal::Time(v) => Literal::Time(*v),
            Literal::Date(v) => Literal::Date(*v),
            Literal::Timestamp(v) => Literal::Timestamp(*v),
            Literal::Interval(m, d) => Literal::Interval(*m, *d),
            Literal::Char(s) => Literal::Char(s.clone()),
            Literal::Text(s) => Literal::Text(s.clone()),
            Literal::Varchar(s) => Literal::Varchar(s.clone()),
            Literal::Blob(b) => Literal::Blob(b.clone()),
        }
    }
}

/// Whether `a` and `b` are the same literal: two blobs of the same bytes, or
/// the same value of another kind.
pub open spec fn same_literal(a: Literal, b: Literal) -> bool {
    match (a, b) {
        (Literal::Blob(x), Literal::Blob(y)) => x@ == y@,
        _ => a == b,
    }
}

/// Whether `a` and `b` are the same expression: of the same kind, with the
/// same type, the same operator, names and values, and the same parts in the
/// same order.
pub open spec fn same_expr(a: Expr, b: Expr) -> bool
    decreases a,
{
    a.out_ty@ == b.out_ty@ && same_parts(a.spec, b.spec)
}

/// Whether each of `xs` is the same expression as the one at its place in
/// `ys`, and there are as many of the ones as of the others.
pub open spec fn same_all(xs: Seq<Box<Expr>>, ys: Seq<Box<Expr>>) -> bool
    decreases xs,
{
    if xs.len() == 0 {
        ys.len() == 0
    } else {
        &&& ys.len() > 0
        &&& same_all(xs.drop_last(), ys.drop_last())
        &&& same_expr(*xs.last(), *ys.last())
    }
}

/// Whether `a` and `b` are made of the same: see `same_expr`.
pub open spec fn same_parts(a: ExprSpec, b: ExprSpec) -> bool
    decreases a,
{
    match a {
        ExprSpec::Not(c) => b is Not && same_expr(*c, *b->Not_0),
        ExprSpec::IsNull(c, positive) => b is IsNull && same_expr(*c, *b->IsNull_0) && positive
            == b->IsNull_1,
        ExprSpec::Sign(c, positive) => b is Sign && same_expr(*c, *b->Sign_0) && positive
            == b->Sign_1,
        ExprSpec::Cast(c, from, to) => b is Cast && same_expr(*c, *b->Cast_0) && from@
            == b->Cast_1@ && to@ == b->Cast_2@,
        ExprSpec::And(l, r) => b is And && same_expr(*l, *b->And_0) && same_expr(*r, *b->And_1),
        ExprSpec::Or(l, r) => b is Or && same_expr(*l, *b->Or_0) && same_expr(*r, *b->Or_1),
        ExprSpec::Comp(op, l, r) => b is Comp && op == b->Comp_0 && same_expr(*l, *b->Comp_1)
            && same_expr(*r, *b->Comp_2),
        ExprSpec::Arithm(op, l, r) => b is Arithm && op == b->Arithm_0 && same_expr(
            *l,
            *b->Arithm_1,
        ) && same_expr(*r, *b->Arithm_2),
        ExprSpec::Concat(l, r) => b is Concat && same_expr(*l, *b->Concat_0) && same_expr(
            *r,
            *b->Concat_1,
        ),
        ExprSpec::Fn(decl, es) => b is Fn && decl.signature@ == b->Fn_0.signature@ && same_all(
            es@,
            b->Fn_1@,
        ),
        ExprSpec::Like(p, v, not) => b is Like && same_expr(*p, *b->Like_0) && same_expr(
            *v,
            *b->Like_1,
        ) && not == b->Like_2,
        ExprSpec::SimilarTo(p, v, not) => b is SimilarTo && same_expr(*p, *b->SimilarTo_0)
            && same_expr(*v, *b->SimilarTo_1) && not == b->SimilarTo_2,
        ExprSpec::RegexMatch(p, v, not) => b is RegexMatch && same_expr(*p, *b->RegexMatch_0)
            && same_expr(*v, *b->RegexMatch_1) && not == b->RegexMatch_2,
        ExprSpec::Between(p, lo, hi) => b is Between && same_expr(*p, *b->Between_0)
            && same_expr(*lo, *b->Between_1) && same_expr(*hi, *b->Between_2),
        ExprSpec::In(p, vs) => b is In && same_expr(*p, *b->In_0) && same_all(vs@, b->In_1@),
        ExprSpec::Case(cs, x) => b is Case && same_all(cs@, b->Case_0@) && same_expr(
            *x,
            *b->Case_1,
        ),
        ExprSpec::IfThen(c, x) => b is IfThen && same_expr(*c, *b->IfThen_0) && same_expr(
            *x,
            *b->IfThen_1,
        ),
        ExprSpec::Row(vs) => b is Row && same_all(vs@, b->Row_0@),
        ExprSpec::Field(name) => b is Field && name@ == b->Field_0@,
        ExprSpec::Const(literal) => b is Const && same_literal(literal, b->Const_0),
    }
}

/// Copies each of `es`, in their order.
fn clone_all(es: &Vec<Box<Expr>>) -> (out: Vec<Box<Expr>>)
    ensures
        same_all(es@, out@),
    decreases es,
{
    let mut out: Vec<Box<Expr>> = Vec::new();
    let mut i: usize = 0;
    proof {
        assert(es@.take(0) =~= Seq::<Box<Expr>>::empty());
    }
    while i < es.len()
        invariant
            i <= es@.len(),
            out@.len() == i,
            same_all(es@.take(i as int), out@),
        decreases es@.len() - i,
    {
        proof {
            vstd::std_specs::vec::axiom_vec_index_decreases(*es, i as int);
            assert(decreases_to!(es => es@[i as int]));
        }
        let ghost before = out@;
        out.push(Box::new((*es[i]).clone()));
        proof {
            assert(es@.take(i as int + 1).drop_last() =~= es@.take(i as int));
            assert(es@.take(i as int + 1).last() == es@[i as int]);
            assert(out@.drop_last() =~= before);
        }
        i = i + 1;
    }
    proof {
        assert(es@.take(i as int) =~= es@);
    }
    out
}

impl Clone for Expr {
    /// A copy: the same expression.
    fn clone(&self) -> (e: Expr)
        ensures
            same_expr(*self, e),
        decreases self,
    {
        Expr { out_ty: self.out_ty.clone(), spec: self.spec.clone() }
    }
}

impl Clone for ExprSpec {
    /// A copy: made of the same.
    fn clone(&self) -> (s: ExprSpec)
        ensures
            same_parts(*self, s),
        decreases self,
    {
        match self {
            ExprSpec::Not(c) => ExprSpec::Not(Box::new((**c).clone())),
            ExprSpec::IsNull(c, b) => ExprSpec::IsNull(Box::new((**c).clone()), *b),
            ExprSpec::Sign(c, b) => ExprSpec::Sign(Box::new((**c).clone()), *b),
            ExprSpec::Cast(c, f, t) => ExprSpec::Cast(
                Box::new((**c).clone()),
                Box::new((**f).clone()),
                Box::new((**t).clone()),
            ),
            ExprSpec::And(l, r) => ExprSpec::And(Box::new((**l).clone()), Box::new((**r).clone())),
            ExprSpec::Or(l, r) => ExprSpec::Or(Box::new((**l).clone()), Box::new((**r).clone())),
            ExprSpec::Comp(op, l, r) => ExprSpec::Comp(
                *op,
                Box::new((**l).clone()),
                Box::new((**r).clone()),
            ),
            ExprSpec::Arithm(op, l, r) => ExprSpec::Arithm(
                *op,
                Box::new((**l).clone()),
                Box::new((**r).clone()),
            ),
            ExprSpec::Concat(l, r) => ExprSpec::Concat(
                Box::new((**l).clone()),
                Box::new((**r).clone()),
            ),
            ExprSpec::Fn(d, es) => ExprSpec::Fn(Box::new((**d).clone()), clone_all(es)),
            ExprSpec::Like(p, v, n) => ExprSpec::Like(
                Box::new((**p).clone()),
                Box::new((**v).clone()),
                *n,
            ),
            ExprSpec::SimilarTo(p, v, n) => ExprSpec::SimilarTo(
                Box::new((**p).clone()),
                Box::new((**v).clone()),
                *n,
            ),
            ExprSpec::RegexMatch(p, v, n) => ExprSpec::RegexMatch(
                Box::new((**p).clone()),
                Box::new((**v).clone()),
                *n,
            ),
            ExprSpec::Between(p, b, x) => ExprSpec::Between(
                Box::new((**p).clone()),
                Box::new((**b).clone()),
                Box::new((**x).clone()),
            ),
            ExprSpec::In(p, vs) => ExprSpec::In(Box::new((**p).clone()), clone_all(vs)),
            ExprSpec::Case(cs, x) => ExprSpec::Case(clone_all(cs), Box::new((**x).clone())),
            ExprSpec::IfThen(c, x) => ExprSpec::IfThen(
                Box::new((**c).clone()),
                Box::new((**x).clone()),
            ),
            ExprSpec::Row(vs) => ExprSpec::Row(clone_all(vs)),
            ExprSpec::Field(name) => ExprSpec::Field(name.clone()),
            ExprSpec::Const(literal) => ExprSpec::Const(literal.clone()),
        }
    }
}

/// What is told of each kind of expression as a tree is walked. An
/// implementation decides in each method whether and when the walk goes on
/// into the parts that the method is handed: it goes on by `walk_expr` on a
/// part, or by `walk_all` on a list of parts. Each method leaves the visitor
/// as `told` says of the kind that the method is for, made of the parts that
/// the method is handed.
pub trait Visitor: Sized {
    /// Whether a visitor in this state, told of an expression that is made of
    /// `what`, may be left in the state `after`. Each visitor says for itself
    /// what it does with what it is told; of one that says nothing, nothing
    /// is known.
    open spec fn told(&self, what: ExprSpec, after: Self) -> bool {
        true
    }

    fn visit_not(&mut self, child: &Expr)
        ensures
            old(self).told(ExprSpec::Not(Box::new(*child)), *final(self)),
    ;

    fn visit_is_null(&mut self, child: &Expr, not: bool)
        ensures
            old(self).told(ExprSpec::IsNull(Box::new(*child), not), *final(self)),
    ;

    fn visit_sign(&mut self, child: &Expr, not: bool)
        ensures
            old(self).told(ExprSpec::Sign(Box::new(*child), not), *final(self)),
    ;

    fn visit_cast(&mut self, expr: &Expr, from: &Ty, to: &Ty)
        ensures
            old(self).told(
                ExprSpec::Cast(Box::new(*expr), Box::new(*from), Box::new(*to)),
                *final(self),
            ),
    ;

    fn visit_and(&mut self, lhs: &Expr, rhs: &Expr)
        ensures
            old(self).told(ExprSpec::And(Box::new(*lhs), Box::new(*rhs)), *final(self)),
    ;

    fn visit_or(&mut self, lhs: &Expr, rhs: &Expr)
        ensures
            old(self).told(ExprSpec::Or(Box::new(*lhs), Box::new(*rhs)), *final(self)),
    ;

    fn visit_comp(&mut self, op: &CompOp, lhs: &Expr, rhs: &Expr)
        ensures
            old(self).told(ExprSpec::Comp(*op, Box::new(*lhs), Box::new(*rhs)), *final(self)),
    ;

    fn visit_arithm(&mut self, op: &ArithmOp, lhs: &Expr, rhs: &Expr)
        ensures
            old(self).told(ExprSpec::Arithm(*op, Box::new(*lhs), Box::new(*rhs)), *final(self)),
    ;

    fn visit_concat(&mut self, lhs: &Expr, rhs: &Expr)
        ensures
            old(self).told(ExprSpec::Concat(Box::new(*lhs), Box::new(*rhs)), *final(self)),
    ;

    fn visit_fn(&mut self, fd: &FnDecl, args: &Vec<Box<Expr>>)
        ensures
            old(self).told(ExprSpec::Fn(Box::new(*fd), *args), *final(self)),
    ;

    fn visit_like(&mut self, pat: &Expr, pred: &Expr, not: bool)
        ensures
            old(self).told(ExprSpec::Like(Box::new(*pat), Box::new(*pred), not), *final(self)),
    ;

    fn visit_similarto(&mut self, pat: &Expr, pred: &Expr, not: bool)
        ensures
            old(self).told(ExprSpec::SimilarTo(Box::new(*pat), Box::new(*pred), not), *final(self)),
    ;

    fn visit_regexmatch(&mut self, pat: &Expr, pred: &Expr, not: bool)
        ensures
            old(self).told(
                ExprSpec::RegexMatch(Box::new(*pat), Box::new(*pred), not),
                *final(self),
            ),
    ;

    fn visit_between(&mut self, pred: &Expr, begin: &Expr, end: &Expr)
        ensures
            old(self).told(
                ExprSpec::Between(Box::new(*pred), Box::new(*begin), Box::new(*end)),
                *final(self),
            ),
    ;

    fn visit_in(&mut self, pred: &Expr, values: &Vec<Box<Expr>>)
        ensures
            old(self).told(ExprSpec::In(Box::new(*pred), *values), *final(self)),
    ;

    fn visit_case(&mut self, ifconds: &Vec<Box<Expr>>, else_result: &Expr)
        ensures
            old(self).told(ExprSpec::Case(*ifconds, Box::new(*else_result)), *final(self)),
    ;

    fn visit_if_then(&mut self, ifcond: &Expr, result: &Expr)
        ensures
            old(self).told(ExprSpec::IfThen(Box::new(*ifcond), Box::new(*result)), *final(self)),
    ;

    fn visit_row(&mut self, values: &Vec<Box<Expr>>)
        ensures
            old(self).told(ExprSpec::Row(*values), *final(self)),
    ;

    fn visit_field(&mut self, field: &String)
        ensures
            old(self).told(ExprSpec::Field(*field), *final(self)),
    ;

    fn visit_const(&mut self, literal: &Literal)
        ensures
            old(self).told(ExprSpec::Const(*literal), *final(self)),
    ;
}

/// Tells the visitor of the expression `expr`: calls the one method that is
/// for its kind, with its parts, so that the visitor is left as one that was
/// told of what `expr` is made of.
pub fn walk_expr<V: Visitor>(visitor: &mut V, expr: &Expr)
    ensures
        old(visitor).told(expr.spec, *final(visitor)),
{
    match expr.spec() {
        ExprSpec::Not(child) => {
            visitor.visit_not(child);
        },
        ExprSpec::IsNull(child, positive) => {
            visitor.visit_is_null(child, *positive);
        },
        ExprSpec::Sign(child, positive) => {
            visitor.visit_sign(child, *positive);
        },
        ExprSpec::Cast(value, from, to) => {
            visitor.visit_cast(value, from, to);
        },
        ExprSpec::And(lhs, rhs) => {
            visitor.visit_and(lhs, rhs);
        },
        ExprSpec::Or(lhs, rhs) => {
            visitor.visit_or(lhs, rhs);
        },
        ExprSpec::Comp(op, lhs, rhs) => {
            visitor.visit_comp(op, lhs, rhs);
        },
        ExprSpec::Arithm(op, lhs, rhs) => {
            visitor.visit_arithm(op, lhs, rhs);
        },
        ExprSpec::Concat(lhs, rhs) => {
            visitor.visit_concat(lhs, rhs);
        },
        ExprSpec::Fn(fd, args) => {
            visitor.visit_fn(fd, args);
        },
        ExprSpec::Like(pat, pred, not) => {
            visitor.visit_like(pat, pred, *not);
        },
        ExprSpec::SimilarTo(pat, pred, not) => {
            visitor.visit_similarto(pat, pred, *not);
        },
        ExprSpec::RegexMatch(pat, pred, not) => {
            visitor.visit_regexmatch(pat, pred, *not);
        },
        ExprSpec::Between(pred, begin, end) => {
            visitor.visit_between(pred, begin, end);
        },
        ExprSpec::In(pred, values) => {
            visitor.visit_in(pred, values);
        },
        ExprSpec::Case(ifconds, else_result) => {
            visitor.visit_case(ifconds, else_result);
        },
        ExprSpec::IfThen(ifcond, result) => {
            visitor.visit_if_then(ifcond, result);
        },
        ExprSpec::Row(values) => {
            visitor.visit_row(values);
        },
        ExprSpec::Field(column) => {
            visitor.visit_field(column);
        },
        ExprSpec::Const(datum) => {
            visitor.visit_const(datum);
        },
    }
}

/// Whether a visitor in the state `before`, told of each of `exprs` in their
/// order, may be left in the state `after`.
pub open spec fn told_all<V: Visitor>(before: V, exprs: Seq<Box<Expr>>, after: V) -> bool
    decreases exprs.len(),
{
    if exprs.len() == 0 {
        after == before
    } else {
        exists|mid: V|
            {
                &&& told_all(before, exprs.drop_last(), mid)
                &&& #[trigger] mid.told(exprs.last().spec, after)
            }
    }
}

/// Tells the visitor of each of `exprs`, in their order: of the first as
/// `walk_expr` does, then of the next in the state in which that left the
/// visitor, and so on. Of no expressions, the visitor stays as it is.
pub fn walk_all<V: Visitor>(visitor: &mut V, exprs: &Vec<Box<Expr>>)
    ensures
        told_all(*old(visitor), exprs@, *final(visitor)),
{
    let mut i: usize = 0;
    proof {
        assert(exprs@.take(0) =~= Seq::<Box<Expr>>::empty());
    }
    while i < exprs.len()
        invariant
            i <= exprs@.len(),
            told_all(*old(visitor), exprs@.take(i as int), *visitor),
        decreases exprs@.len() - i,
    {
        let ghost mid = *visitor;
        walk_expr(visitor, &exprs[i]);
        proof {
            assert(exprs@.take(i as int + 1).drop_last() =~= exprs@.take(i as int));
            assert(exprs@.take(i as int + 1).last() == exprs@[i as int]);
            assert(mid.told(exprs@.take(i as int + 1).last().spec, *visitor));
        }
        i = i + 1;
    }
    proof {
        assert(exprs@.take(i as int) =~= exprs@);
    }
}

/// What is told of an expression as a tree is walked in the plain way.
pub trait SimpleVisitor {
    /// Is told of the expression `op`. An implementation that has nothing of
    /// its own to do with it hands it on to `accept_by_default`.
    fn accept(&self, op: &Expr);
}

/// Walks on into the parts of `e`, a constant or a conjunction: tells the
/// visitor of both parts of a conjunction, in their order.
pub fn accept_by_default<V: SimpleVisitor>(visitor: &V, e: &Expr)
    requires
        e.spec is Const || e.spec is And,
{
    match e.spec() {
        ExprSpec::Const(_) => {},
        ExprSpec::And(l, r) => {
            visitor.accept(l);
            visitor.accept(r);
        },
        _ => {},
    }
}

} // verus!
