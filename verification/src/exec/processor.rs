//! Processor: a list of evaluators, compiled from expressions against a
//! schema.
//!
//! Terminology:
//! * Evaluator - what evaluates one expression over a page
//! * Processor - a list of evaluators, one for each output column
//!
//! An expression is compiled in one walk from the leaves to the root. The
//! evaluators of the parts that are done lie on a stack. A leaf pushes its
//! evaluator; every other form pops the evaluators of its parts and pushes its
//! own. When the walk is over, the stack holds the evaluator of the
//! expression and nothing else.

use vstd::prelude::*;
use crate::common::func::{FnKind, FuncSignatureView};
use crate::common::plugin::{func_index, has_func, str_views, FuncEntry, FuncRegistry};
use crate::common::types::{models, Ty, TyModel};
use crate::err::{Error, TResult, Void};
use crate::exec::evaluator::{
    bin_error,
    const_error,
    literal_value,
    models_of,
    nodes_wf,
    BinEvaluator,
    CmpEvaluator,
    ConstEvaluator,
    EvalModel,
    EvalNode,
    FieldEvaluator,
    Form,
    FormEvaluator,
    NoArgFnEvaluator,
    UnaryFnEvaluator,
};
use crate::exec::{NamedSchema, Processor};
use crate::plan::expr::{
    same_all, same_expr, ArithmOp, CompOp, Expr, ExprSpec, FnDecl, Literal,
};
use crate::rows::minipage::MiniPage;
use crate::rows::page::{Page, PageBuilder};
use crate::text::str_eq;

verus! {

/// The session in which a query runs.
pub struct Session;

/// What an expression is compiled against: the names and the types of the
/// columns of the input, one name for each type, and the registered
/// functions.
pub struct Context {
    pub names: Seq<Seq<char>>,
    pub types: Seq<TyModel>,
    pub funcs: Seq<FuncEntry>,
}

/// The compiled parts `args` and after them the compiled part `next`, or the
/// first error among them.
pub open spec fn chain(args: Result<Seq<EvalModel>, Error>, next: Result<EvalModel,
    Error>) -> Result<
    Seq<EvalModel>,
    Error,
> {
    match args {
        Err(e) => Err(e),
        Ok(done) => match next {
            Err(e) => Err(e),
            Ok(m) => Ok(done.push(m)),
        },
    }
}

/// The compiled parts `args` and after them the compiled parts `more`, or
/// the first error among them.
pub open spec fn chain_all(
    args: Result<Seq<EvalModel>, Error>,
    more: Result<Seq<EvalModel>, Error>,
) -> Result<Seq<EvalModel>, Error> {
    match args {
        Err(e) => Err(e),
        Ok(done) => match more {
            Err(e) => Err(e),
            Ok(ms) => Ok(done + ms),
        },
    }
}

/// No part, compiled.
pub open spec fn no_args() -> Result<Seq<EvalModel>, Error> {
    Ok(Seq::empty())
}

/// The types of the values of `args`, one for one.
pub open spec fn types_of(args: Seq<EvalModel>) -> Seq<TyModel> {
    Seq::new(args.len(), |i: int| args[i].ty())
}

/// What the field `name` compiles to: the evaluator of the first column of
/// that name, with the column's type; `UndefinedColumn` where there is none.
pub open spec fn field_model(ctx: Context, name: Seq<char>) -> Result<EvalModel, Error> {
    match ctx.names.index_of_first(name) {
        Some(idx) => Ok(EvalModel::Field { idx, ty: ctx.types[idx] }),
        None => Err(Error::UndefinedColumn),
    }
}

/// What the constant `literal` of the type `ty` compiles to.
pub open spec fn const_model(ty: TyModel, literal: Literal) -> Result<EvalModel, Error> {
    match const_error(ty, literal) {
        Some(e) => Err(e),
        None => Ok(EvalModel::Const { ty, value: literal_value(literal) }),
    }
}

/// What the operator `op` with a result of the type `ty` compiles to on the
/// two compiled operands `args`.
pub open spec fn bin_model(ty: TyModel, op: ArithmOp, args: Seq<EvalModel>) -> Result<
    EvalModel,
    Error,
> {
    match bin_error(ty, args[0].ty(), args[1].ty()) {
        Some(e) => Err(e),
        None => Ok(EvalModel::Bin { ty, op, lhs: Box::new(args[0]), rhs: Box::new(args[1]) }),
    }
}

/// What the comparison `op` with a result of the type `ty` compiles to on
/// the two compiled operands `args`: `InvalidExpression` where they are of
/// different types.
pub open spec fn cmp_model(ty: TyModel, op: CompOp, args: Seq<EvalModel>) -> Result<
    EvalModel,
    Error,
> {
    if args[0].ty() != args[1].ty() {
        Err(Error::InvalidExpression)
    } else {
        Ok(EvalModel::Cmp { ty, op, lhs: Box::new(args[0]), rhs: Box::new(args[1]) })
    }
}

/// The signature by which the function `name` is looked up for the compiled
/// arguments `args`.
pub open spec fn call_sign(name: Seq<char>, args: Seq<EvalModel>) -> FuncSignatureView {
    FuncSignatureView { name, arg_types: types_of(args), fn_kind: FnKind::Scalar }
}

/// What a call of the function `name` with a result of the type `ty` compiles
/// to on the compiled arguments `args`: `UndefinedOperator` where no scalar
/// function of that name is registered for exactly the types of the
/// arguments, `InvalidExpression` where the registered function has a result
/// of another type.
pub open spec fn call_model(ctx: Context, name: Seq<char>, ty: TyModel,
    args: Seq<EvalModel>) -> Result<
    EvalModel,
    Error,
> {
    if !has_func(ctx.funcs, call_sign(name, args)) {
        Err(Error::UndefinedOperator)
    } else if ctx.funcs[func_index(ctx.funcs, call_sign(name, args))].body.spec_ret_type() != ty {
        Err(Error::InvalidExpression)
    } else {
        Ok(
            EvalModel::Other {
                form: Form::Call(func_index(ctx.funcs, call_sign(name, args)) as usize),
                ty,
                args,
            },
        )
    }
}

/// What the form `form` with a result of the type `ty` compiles to on the
/// compiled parts `args`.
pub open spec fn form_model(form: Form, ty: TyModel, args: Seq<EvalModel>) -> EvalModel {
    EvalModel::Other { form, ty, args }
}

/// What the expressions `es` compile to, in their order, or the first error
/// among them.
pub open spec fn compiled_all(ctx: Context, es: Seq<Box<Expr>>) -> Result<Seq<EvalModel>, Error>
    decreases es,
{
    if es.len() == 0 {
        no_args()
    } else {
        chain(compiled_all(ctx, es.drop_last()), compiled(ctx, *es.last()))
    }
}

/// What the expression `e` compiles to against `ctx`, or the error with which
/// it is refused. The parts of an expression are compiled in their order, and
/// the first error among them is that of the expression.
pub open spec fn compiled(ctx: Context, e: Expr) -> Result<EvalModel, Error>
    decreases e,
{
    let ty = e.out_ty@;
    match e.spec {
        ExprSpec::Not(c) => match chain(no_args(), compiled(ctx, *c)) {
            Ok(args) => Ok(form_model(Form::Not, ty, args)),
            Err(err) => Err(err),
        },
        ExprSpec::IsNull(c, positive) => match chain(no_args(), compiled(ctx, *c)) {
            Ok(args) => Ok(
                form_model(
                    if positive {
                        Form::IsNull
                    } else {
                        Form::IsNotNull
                    },
                    ty,
                    args,
                ),
            ),
            Err(err) => Err(err),
        },
        ExprSpec::Sign(c, positive) => match chain(no_args(), compiled(ctx, *c)) {
            Ok(args) => Ok(
                form_model(
                    if positive {
                        Form::PlusSign
                    } else {
                        Form::MinusSign
                    },
                    ty,
                    args,
                ),
            ),
            Err(err) => Err(err),
        },
        ExprSpec::Cast(c, from, to) => match chain(no_args(), compiled(ctx, *c)) {
            Ok(args) => Ok(form_model(Form::Cast, ty, args)),
            Err(err) => Err(err),
        },
        ExprSpec::And(l, r) => match chain(
            chain(no_args(), compiled(ctx, *l)),
            compiled(ctx, *r),
        ) {
            Ok(args) => Ok(form_model(Form::And, ty, args)),
            Err(err) => Err(err),
        },
        ExprSpec::Or(l, r) => match chain(chain(no_args(), compiled(ctx, *l)), compiled(ctx, *r)) {
            Ok(args) => Ok(form_model(Form::Or, ty, args)),
            Err(err) => Err(err),
        },
        ExprSpec::Comp(op, l, r) => match chain(
            chain(no_args(), compiled(ctx, *l)),
            compiled(ctx, *r),
        ) {
            Ok(args) => cmp_model(ty, op, args),
            Err(err) => Err(err),
        },
        ExprSpec::Arithm(op, l, r) => match chain(
            chain(no_args(), compiled(ctx, *l)),
            compiled(ctx, *r),
        ) {
            Ok(args) => bin_model(ty, op, args),
            Err(err) => Err(err),
        },
        ExprSpec::Concat(l, r) => match chain(
            chain(no_args(), compiled(ctx, *l)),
            compiled(ctx, *r),
        ) {
            Ok(args) => Ok(form_model(Form::Concat, ty, args)),
            Err(err) => Err(err),
        },
        ExprSpec::Fn(decl, es) => match compiled_all(ctx, es@) {
            Ok(args) => call_model(ctx, decl.signature@, ty, args),
            Err(err) => Err(err),
        },
        ExprSpec::Like(p, v, not) => match chain(
            chain(no_args(), compiled(ctx, *p)),
            compiled(ctx, *v),
        ) {
            Ok(args) => Ok(form_model(Form::Like(not), ty, args)),
            Err(err) => Err(err),
        },
        ExprSpec::SimilarTo(p, v, not) => match chain(
            chain(no_args(), compiled(ctx, *p)),
            compiled(ctx, *v),
        ) {
            Ok(args) => Ok(form_model(Form::SimilarTo(not), ty, args)),
            Err(err) => Err(err),
        },
        ExprSpec::RegexMatch(p, v, not) => match chain(
            chain(no_args(), compiled(ctx, *p)),
            compiled(ctx, *v),
        ) {
            Ok(args) => Ok(form_model(Form::RegexMatch(not), ty, args)),
            Err(err) => Err(err),
        },
        ExprSpec::Between(p, b, x) => match chain(
            chain(chain(no_args(), compiled(ctx, *p)), compiled(ctx, *b)),
            compiled(ctx, *x),
        ) {
            Ok(args) => Ok(form_model(Form::Between, ty, args)),
            Err(err) => Err(err),
        },
        ExprSpec::In(p, vs) => match chain_all(
            chain(no_args(), compiled(ctx, *p)),
            compiled_all(ctx, vs@),
        ) {
            Ok(args) => Ok(form_model(Form::In, ty, args)),
            Err(err) => Err(err),
        },
        ExprSpec::Case(cs, x) => match chain(compiled_all(ctx, cs@), compiled(ctx, *x)) {
            Ok(args) => Ok(form_model(Form::Case, ty, args)),
            Err(err) => Err(err),
        },
        ExprSpec::IfThen(c, x) => match chain(
            chain(no_args(), compiled(ctx, *c)),
            compiled(ctx, *x),
        ) {
            Ok(args) => Ok(form_model(Form::IfThen, ty, args)),
            Err(err) => Err(err),
        },
        ExprSpec::Row(vs) => match compiled_all(ctx, vs@) {
            Ok(args) => Ok(form_model(Form::Row, ty, args)),
            Err(err) => Err(err),
        },
        ExprSpec::Field(name) => field_model(ctx, name@),
        ExprSpec::Const(literal) => const_model(ty, literal),
    }
}

/// The same expressions compile to the same: a copy of an expression
/// compiles as the expression does.
pub proof fn lemma_same_compiles(ctx: Context, a: Expr, b: Expr)
    requires
        same_expr(a, b),
    ensures
        compiled(ctx, a) == compiled(ctx, b),
    decreases a,
{
    match a.spec {
        ExprSpec::Not(c) => {
            lemma_same_compiles(ctx, *c, *b.spec->Not_0);
        },
        ExprSpec::IsNull(c, _) => {
            lemma_same_compiles(ctx, *c, *b.spec->IsNull_0);
        },
        ExprSpec::Sign(c, _) => {
            lemma_same_compiles(ctx, *c, *b.spec->Sign_0);
        },
        ExprSpec::Cast(c, _, _) => {
            lemma_same_compiles(ctx, *c, *b.spec->Cast_0);
        },
        ExprSpec::And(l, r) => {
            lemma_same_compiles(ctx, *l, *b.spec->And_0);
            lemma_same_compiles(ctx, *r, *b.spec->And_1);
        },
        ExprSpec::Or(l, r) => {
            lemma_same_compiles(ctx, *l, *b.spec->Or_0);
            lemma_same_compiles(ctx, *r, *b.spec->Or_1);
        },
        ExprSpec::Comp(_, l, r) => {
            lemma_same_compiles(ctx, *l, *b.spec->Comp_1);
            lemma_same_compiles(ctx, *r, *b.spec->Comp_2);
        },
        ExprSpec::Arithm(_, l, r) => {
            lemma_same_compiles(ctx, *l, *b.spec->Arithm_1);
            lemma_same_compiles(ctx, *r, *b.spec->Arithm_2);
        },
        ExprSpec::Concat(l, r) => {
            lemma_same_compiles(ctx, *l, *b.spec->Concat_0);
            lemma_same_compiles(ctx, *r, *b.spec->Concat_1);
        },
        ExprSpec::Fn(_, es) => {
            lemma_same_compile_all(ctx, es@, b.spec->Fn_1@);
        },
        ExprSpec::Like(p, v, _) => {
            lemma_same_compiles(ctx, *p, *b.spec->Like_0);
            lemma_same_compiles(ctx, *v, *b.spec->Like_1);
        },
        ExprSpec::SimilarTo(p, v, _) => {
            lemma_same_compiles(ctx, *p, *b.spec->SimilarTo_0);
            lemma_same_compiles(ctx, *v, *b.spec->SimilarTo_1);
        },
        ExprSpec::RegexMatch(p, v, _) => {
            lemma_same_compiles(ctx, *p, *b.spec->RegexMatch_0);
            lemma_same_compiles(ctx, *v, *b.spec->RegexMatch_1);
        },
        ExprSpec::Between(p, lo, hi) => {
            lemma_same_compiles(ctx, *p, *b.spec->Between_0);
            lemma_same_compiles(ctx, *lo, *b.spec->Between_1);
            lemma_same_compiles(ctx, *hi, *b.spec->Between_2);
        },
        ExprSpec::In(p, vs) => {
            lemma_same_compiles(ctx, *p, *b.spec->In_0);
            lemma_same_compile_all(ctx, vs@, b.spec->In_1@);
        },
        ExprSpec::Case(cs, x) => {
            lemma_same_compile_all(ctx, cs@, b.spec->Case_0@);
            lemma_same_compiles(ctx, *x, *b.spec->Case_1);
        },
        ExprSpec::IfThen(c, x) => {
            lemma_same_compiles(ctx, *c, *b.spec->IfThen_0);
            lemma_same_compiles(ctx, *x, *b.spec->IfThen_1);
        },
        ExprSpec::Row(vs) => {
            lemma_same_compile_all(ctx, vs@, b.spec->Row_0@);
        },
        ExprSpec::Field(_) => {},
        ExprSpec::Const(_) => {},
    }
}

/// Lists of the same expressions compile to the same.
pub proof fn lemma_same_compile_all(ctx: Context, xs: Seq<Box<Expr>>, ys: Seq<Box<Expr>>)
    requires
        same_all(xs, ys),
    ensures
        compiled_all(ctx, xs) == compiled_all(ctx, ys),
    decreases xs,
{
    if xs.len() > 0 {
        lemma_same_compile_all(ctx, xs.drop_last(), ys.drop_last());
        lemma_same_compiles(ctx, *xs.last(), *ys.last());
    }
}

/// A field compiles to the evaluator of the first column of its name. That
/// evaluator fails on no page that has the column, with the width of its
/// type, at that position, and it yields what that column holds.
pub proof fn lemma_field_resolution(
    ctx: Context,
    e: Expr,
    k: int,
    columns: Seq<MiniPage>,
    active: Option<Seq<usize>>,
    column: MiniPage,
)
    requires
        e.spec is Field,
        0 <= k < ctx.names.len(),
        ctx.names[k] == e.spec->Field_0@,
        forall|j: int| 0 <= j < k ==> ctx.names[j] != e.spec->Field_0@,
    ensures
        compiled(ctx, e) == Ok::<EvalModel, Error>(EvalModel::Field { idx: k, ty: ctx.types[k] }),
        k < columns.len() && ctx.types[k].sized() && columns[k].spec_width()
            == ctx.types[k].size_of() ==> compiled(ctx, e)->Ok_0.error_on(columns, active)
            is None,
        compiled(ctx, e)->Ok_0.yields(columns, active, column) ==> column.bytes()
            == columns[k].bytes(),
{
    ctx.names.index_of_first_ensures(e.spec->Field_0@);
    assert(ctx.names.contains(e.spec->Field_0@));
}

/// The last `argc` of `stack`: the parts of the form that is reduced next.
pub open spec fn popped(stack: Seq<EvalModel>, argc: int) -> Seq<EvalModel> {
    stack.subrange(stack.len() - argc, stack.len() as int)
}

/// What is left of `stack` without its last `argc`.
pub open spec fn rest(stack: Seq<EvalModel>, argc: int) -> Seq<EvalModel> {
    stack.subrange(0, stack.len() - argc)
}

/// The models of a part of a list of evaluators are that part of the models.
pub proof fn lemma_models_subrange(nodes: Seq<EvalNode>, from: int, to: int)
    requires
        0 <= from <= to <= nodes.len(),
    ensures
        models_of(nodes.subrange(from, to)) == models_of(nodes).subrange(from, to),
        nodes_wf(nodes) ==> nodes_wf(nodes.subrange(from, to)),
{
    assert(models_of(nodes.subrange(from, to)) =~= models_of(nodes).subrange(from, to));
    if nodes_wf(nodes) {
        assert forall|i: int| 0 <= i < nodes.subrange(from, to).len() implies (
        #[trigger] nodes.subrange(from, to)[i]).wf() by {
            assert(nodes[from + i].wf());
        }
    }
}

/// The models of two lists of evaluators, one after the other, are the
/// models of the one and then those of the other.
pub proof fn lemma_models_append(nodes: Seq<EvalNode>, more: Seq<EvalNode>)
    ensures
        models_of(nodes + more) == models_of(nodes) + models_of(more),
        nodes_wf(nodes) && nodes_wf(more) ==> nodes_wf(nodes + more),
{
    assert(models_of(nodes + more) =~= models_of(nodes) + models_of(more));
}

/// The models of a list of evaluators with one more are the models with one
/// more.
pub proof fn lemma_models_push(nodes: Seq<EvalNode>, node: EvalNode)
    ensures
        models_of(nodes.push(node)) == models_of(nodes).push(node.model()),
        nodes_wf(nodes) && node.wf() ==> nodes_wf(nodes.push(node)),
{
    assert(models_of(nodes.push(node)) =~= models_of(nodes).push(node.model()));
}

/// On a stack to which parts were pushed, the parts are what is popped, and
/// what is left is the stack from before.
pub proof fn lemma_pushed(stack: Seq<EvalModel>, args: Seq<EvalModel>)
    ensures
        (stack + args).len() == stack.len() + args.len(),
        popped(stack + args, args.len() as int) == args,
        rest(stack + args, args.len() as int) == stack,
{
    assert(popped(stack + args, args.len() as int) =~= args);
    assert(rest(stack + args, args.len() as int) =~= stack);
}

/// A stack is itself with nothing pushed.
pub proof fn lemma_add_empty(stack: Seq<EvalModel>)
    ensures
        stack + Seq::<EvalModel>::empty() == stack,
{
    assert(stack + Seq::<EvalModel>::empty() =~= stack);
}

/// One more part pushed after some parts is the parts with one more, pushed.
pub proof fn lemma_push_add(stack: Seq<EvalModel>, args: Seq<EvalModel>, m: EvalModel)
    ensures
        (stack + args).push(m) == stack + args.push(m),
{
    assert((stack + args).push(m) =~= stack + args.push(m));
}

/// More parts pushed after some parts are all the parts, pushed.
pub proof fn lemma_add_add(stack: Seq<EvalModel>, args: Seq<EvalModel>, more: Seq<EvalModel>)
    ensures
        (stack + args) + more == stack + (args + more),
{
    assert((stack + args) + more =~= stack + (args + more));
}

/// A list of expressions compiles to as many evaluators as it has
/// expressions.
pub proof fn lemma_compiled_all_len(ctx: Context, es: Seq<Box<Expr>>)
    ensures
        compiled_all(ctx, es) matches Ok(ms) ==> ms.len() == es.len(),
    decreases es.len(),
{
    if es.len() > 0 {
        lemma_compiled_all_len(ctx, es.drop_last());
    }
}

/// Where some of the first expressions of a list are refused, the list is
/// refused with the same error.
pub proof fn lemma_compiled_all_prefix(ctx: Context, es: Seq<Box<Expr>>, k: int)
    requires
        0 <= k <= es.len(),
        compiled_all(ctx, es.take(k)) is Err,
    ensures
        compiled_all(ctx, es) == compiled_all(ctx, es.take(k)),
    decreases es.len() - k,
{
    if k == es.len() {
        assert(es.take(k) =~= es);
    } else {
        assert(es.take(k + 1).drop_last() =~= es.take(k));
        lemma_compiled_all_prefix(ctx, es, k + 1);
    }
}

/// Compiler of expressions: a stack of the evaluators of the parts that are
/// done, and what expressions are compiled against.
pub struct Interpreter<'a> {
    types: &'a Vec<Ty>,
    names: &'a Vec<&'a str>,
    funcs: &'a FuncRegistry,
    stack: Vec<EvalNode>,
}

impl<'a> Interpreter<'a> {
    /// What expressions are compiled against.
    pub closed spec fn ctx(&self) -> Context {
        Context {
            names: str_views(self.names@),
            types: models(self.types@),
            funcs: self.funcs.entries(),
        }
    }

    /// What the evaluators on the stack stand for, the last pushed last.
    pub closed spec fn stack(&self) -> Seq<EvalModel> {
        models_of(self.stack@)
    }

    /// What holds of every compiler: each column has a name and a type, the
    /// registry of functions is well formed, and so is every evaluator on the
    /// stack.
    pub closed spec fn wf(&self) -> bool {
        &&& self.names@.len() == self.types@.len()
        &&& self.funcs.wf()
        &&& nodes_wf(self.stack@)
    }

    /// A compiler with an empty stack, for expressions over columns that are
    /// called `names` and have the types `types`, one for one.
    pub fn new(
        fn_registry: &'a FuncRegistry,
        session: &Session,
        types: &'a Vec<Ty>,
        names: &'a Vec<&'a str>,
    ) -> (interpreter: Interpreter<'a>)
        requires
            fn_registry.wf(),
            types@.len() == names@.len(),
        ensures
            interpreter.wf(),
            interpreter.stack() == Seq::<EvalModel>::empty(),
            interpreter.ctx() == (Context {
                names: str_views(names@),
                types: models(types@),
                funcs: fn_registry.entries(),
            }),
    {
        let interpreter = Interpreter { types, names, funcs: fn_registry, stack: Vec::new() };
        proof {
            assert(interpreter.stack() =~= Seq::<EvalModel>::empty());
        }
        interpreter
    }

    /// Compiles `expression` against columns that are called `input_names` and
    /// have the types `input_types`, one for one, and against the registered
    /// functions.
    pub fn build(
        fn_registry: &'a FuncRegistry,
        session: &'a Session,
        input_types: &'a Vec<Ty>,
        input_names: &'a Vec<&'a str>,
        expression: &Expr,
    ) -> (r: TResult<EvalNode>)
        requires
            fn_registry.wf(),
            input_types@.len() == input_names@.len(),
        ensures
            match r {
                Ok(evaluator) => evaluator.wf() && compiled(
                    Context {
                        names: str_views(input_names@),
                        types: models(input_types@),
                        funcs: fn_registry.entries(),
                    },
                    *expression,
                ) == Ok::<EvalModel, Error>(evaluator.model()),
                Err(e) => compiled(
                    Context {
                        names: str_views(input_names@),
                        types: models(input_types@),
                        funcs: fn_registry.entries(),
                    },
                    *expression,
                ) == Err::<EvalModel, Error>(e),
            },
    {
        let mut interpreter = Interpreter::new(fn_registry, session, input_types, input_names);
        interpreter.accept(expression)?;
        interpreter.finish()
    }

    /// Ends the walk: hands out the one evaluator on the stack. Fails with
    /// `InternalError` where the stack holds none or more than one.
    pub fn finish(self) -> (r: TResult<EvalNode>)
        requires
            self.wf(),
        ensures
            match r {
                Ok(evaluator) => self.stack().len() == 1 && evaluator.wf() && evaluator.model()
                    == self.stack()[0],
                Err(e) => self.stack().len() != 1 && e is InternalError,
            },
    {
        let mut stack = self.stack;
        if stack.len() != 1 {
            return Err(Error::InternalError);
        }
        match stack.pop() {
            Some(evaluator) => Ok(evaluator),
            None => Err(Error::InternalError),
        }
    }

    /// Takes the last `argc` evaluators from the stack, where it holds so
    /// many.
    fn pop_args(&mut self, argc: usize) -> (r: Option<Vec<EvalNode>>)
        requires
            old(self).wf(),
        ensures
            final(self).wf(),
            final(self).ctx() == old(self).ctx(),
            match r {
                Some(args) => argc <= old(self).stack().len() && nodes_wf(args@) && models_of(
                    args@,
                ) == popped(old(self).stack(), argc as int) && final(self).stack() == rest(
                    old(self).stack(),
                    argc as int,
                ),
                None => old(self).stack().len() < argc && final(self).stack() == old(self).stack(),
            },
    {
        let len: usize = self.stack.len();
        if len < argc {
            return None;
        }
        proof {
            lemma_models_subrange(self.stack@, 0, len - argc);
            lemma_models_subrange(self.stack@, len - argc, len as int);
        }
        let args = self.stack.split_off(len - argc);
        Some(args)
    }

    /// Pushes `node` on the stack.
    fn push(&mut self, node: EvalNode)
        requires
            old(self).wf(),
            node.wf(),
        ensures
            final(self).wf(),
            final(self).ctx() == old(self).ctx(),
            final(self).stack() == old(self).stack().push(node.model()),
    {
        proof {
            lemma_models_push(self.stack@, node);
        }
        self.stack.push(node);
    }

    /// Reduces the last `argc` evaluators on the stack to the evaluator of
    /// the form `form` on them, whose result has the type `ty`. Fails with
    /// `InternalError`, and changes nothing, where the stack holds fewer.
    pub fn form(&mut self, form: Form, ty: &Ty, argc: usize) -> (r: Void)
        requires
            old(self).wf(),
        ensures
            final(self).wf(),
            final(self).ctx() == old(self).ctx(),
            match r {
                Ok(_) => argc <= old(self).stack().len() && final(self).stack() == rest(
                    old(self).stack(),
                    argc as int,
                ).push(form_model(form, ty@, popped(old(self).stack(), argc as int))),
                Err(e) => old(self).stack().len() < argc && e is InternalError
                    && final(self).stack() == old(self).stack(),
            },
    {
        match self.pop_args(argc) {
            Some(args) => {
                self.push(EvalNode::Form(FormEvaluator::new(form, ty.clone(), args)));
                Ok(())
            },
            None => Err(Error::InternalError),
        }
    }

    /// Reduces the last `lower` and `upper` evaluators on the stack, as many
    /// as both numbers together, to the evaluator of the form `form` on them,
    /// whose result has the type `ty`. Fails with `InternalError`, and changes
    /// nothing, where the stack holds fewer.
    fn form_split(&mut self, form: Form, ty: &Ty, lower: usize, upper: usize) -> (r: Void)
        requires
            old(self).wf(),
        ensures
            final(self).wf(),
            final(self).ctx() == old(self).ctx(),
            match r {
                Ok(_) => lower + upper <= old(self).stack().len() && final(self).stack() == rest(
                    old(self).stack(),
                    lower + upper,
                ).push(form_model(form, ty@, popped(old(self).stack(), lower + upper))),
                Err(e) => old(self).stack().len() < lower + upper && e is InternalError
                    && final(self).stack() == old(self).stack(),
            },
    {
        let len: usize = self.stack.len();
        if len < lower || len - lower < upper {
            return Err(Error::InternalError);
        }
        let ghost s0 = self.stack();
        proof {
            assert(s0.len() == len);
        }
        let mut top = self.pop_args(upper).unwrap();
        proof {
            assert(self.stack().len() == len - upper);
        }
        let mut args = self.pop_args(lower).unwrap();
        proof {
            lemma_models_append(args@, top@);
            assert(models_of(args@) + models_of(top@) =~= popped(s0, lower + upper));
            assert(self.stack() =~= rest(s0, lower + upper));
        }
        args.append(&mut top);
        self.push(EvalNode::Form(FormEvaluator::new(form, ty.clone(), args)));
        Ok(())
    }

    /// Reduces the evaluator on top of the stack to that of its negation.
    #[allow(non_snake_case)]
    pub fn Not(&mut self, ty: &Ty) -> (r: Void)
        requires
            old(self).wf(),
        ensures
            final(self).wf(),
            final(self).ctx() == old(self).ctx(),
            match r {
                Ok(_) => 1 <= old(self).stack().len() && final(self).stack() == rest(
                    old(self).stack(),
                    1,
                ).push(form_model(Form::Not, ty@, popped(old(self).stack(), 1))),
                Err(e) => old(self).stack().len() < 1 && e is InternalError && final(self).stack()
                    == old(self).stack(),
            },
    {
        self.form(Form::Not, ty, 1)
    }

    /// Reduces the evaluator on top of the stack to that of the test whether
    /// its value is null.
    #[allow(non_snake_case)]
    pub fn IsNull(&mut self, ty: &Ty) -> (r: Void)
        requires
            old(self).wf(),
        ensures
            final(self).wf(),
            final(self).ctx() == old(self).ctx(),
            match r {
                Ok(_) => 1 <= old(self).stack().len() && final(self).stack() == rest(
                    old(self).stack(),
                    1,
                ).push(form_model(Form::IsNull, ty@, popped(old(self).stack(), 1))),
                Err(e) => old(self).stack().len() < 1 && e is InternalError && final(self).stack()
                    == old(self).stack(),
            },
    {
        self.form(Form::IsNull, ty, 1)
    }

    /// Reduces the evaluator on top of the stack to that of the test whether
    /// its value is not null.
    #[allow(non_snake_case)]
    pub fn IsNotNull(&mut self, ty: &Ty) -> (r: Void)
        requires
            old(self).wf(),
        ensures
            final(self).wf(),
            final(self).ctx() == old(self).ctx(),
            match r {
                Ok(_) => 1 <= old(self).stack().len() && final(self).stack() == rest(
                    old(self).stack(),
                    1,
                ).push(form_model(Form::IsNotNull, ty@, popped(old(self).stack(), 1))),
                Err(e) => old(self).stack().len() < 1 && e is InternalError && final(self).stack()
                    == old(self).stack(),
            },
    {
        self.form(Form::IsNotNull, ty, 1)
    }

    /// Reduces the evaluator on top of the stack to that of its value with a
    /// plus sign.
    #[allow(non_snake_case)]
    pub fn PlusSign(&mut self, ty: &Ty) -> (r: Void)
        requires
            old(self).wf(),
        ensures
            final(self).wf(),
            final(self).ctx() == old(self).ctx(),
            match r {
                Ok(_) => 1 <= old(self).stack().len() && final(self).stack() == rest(
                    old(self).stack(),
                    1,
                ).push(form_model(Form::PlusSign, ty@, popped(old(self).stack(), 1))),
                Err(e) => old(self).stack().len() < 1 && e is InternalError && final(self).stack()
                    == old(self).stack(),
            },
    {
        self.form(Form::PlusSign, ty, 1)
    }

    /// Reduces the evaluator on top of the stack to that of its value with a
    /// minus sign.
    #[allow(non_snake_case)]
    pub fn MinusSign(&mut self, ty: &Ty) -> (r: Void)
        requires
            old(self).wf(),
        ensures
            final(self).wf(),
            final(self).ctx() == old(self).ctx(),
            match r {
                Ok(_) => 1 <= old(self).stack().len() && final(self).stack() == rest(
                    old(self).stack(),
                    1,
                ).push(form_model(Form::MinusSign, ty@, popped(old(self).stack(), 1))),
                Err(e) => old(self).stack().len() < 1 && e is InternalError && final(self).stack()
                    == old(self).stack(),
            },
    {
        self.form(Form::MinusSign, ty, 1)
    }

    /// Reduces the evaluator on top of the stack to that of its value cast
    /// from the type `f` to the type `t`.
    #[allow(non_snake_case)]
    pub fn Cast(&mut self, ty: &Ty, f: &Ty, t: &Ty) -> (r: Void)
        requires
            old(self).wf(),
        ensures
            final(self).wf(),
            final(self).ctx() == old(self).ctx(),
            match r {
                Ok(_) => 1 <= old(self).stack().len() && final(self).stack() == rest(
                    old(self).stack(),
                    1,
                ).push(form_model(Form::Cast, ty@, popped(old(self).stack(), 1))),
                Err(e) => old(self).stack().len() < 1 && e is InternalError && final(self).stack()
                    == old(self).stack(),
            },
    {
        self.form(Form::Cast, ty, 1)
    }

    /// Reduces the two evaluators on top of the stack to that of their
    /// conjunction.
    #[allow(non_snake_case)]
    pub fn And(&mut self, ty: &Ty) -> (r: Void)
        requires
            old(self).wf(),
        ensures
            final(self).wf(),
            final(self).ctx() == old(self).ctx(),
            match r {
                Ok(_) => 2 <= old(self).stack().len() && final(self).stack() == rest(
                    old(self).stack(),
                    2,
                ).push(form_model(Form::And, ty@, popped(old(self).stack(), 2))),
                Err(e) => old(self).stack().len() < 2 && e is InternalError && final(self).stack()
                    == old(self).stack(),
            },
    {
        self.form(Form::And, ty, 2)
    }

    /// Reduces the two evaluators on top of the stack to that of their
    /// disjunction.
    #[allow(non_snake_case)]
    pub fn Or(&mut self, ty: &Ty) -> (r: Void)
        requires
            old(self).wf(),
        ensures
            final(self).wf(),
            final(self).ctx() == old(self).ctx(),
            match r {
                Ok(_) => 2 <= old(self).stack().len() && final(self).stack() == rest(
                    old(self).stack(),
                    2,
                ).push(form_model(Form::Or, ty@, popped(old(self).stack(), 2))),
                Err(e) => old(self).stack().len() < 2 && e is InternalError && final(self).stack()
                    == old(self).stack(),
            },
    {
        self.form(Form::Or, ty, 2)
    }

    /// Reduces the two evaluators on top of the stack to that of their
    /// comparison by `op`, whose result has the type `ty`. Fails with
    /// `InternalError`, and changes nothing, where the stack holds fewer; and
    /// with `InvalidExpression`, the two taken off, where they are of
    /// different types.
    #[allow(non_snake_case)]
    pub fn Cmp(&mut self, ty: &Ty, op: &CompOp) -> (r: Void)
        requires
            old(self).wf(),
        ensures
            final(self).wf(),
            final(self).ctx() == old(self).ctx(),
            match r {
                Ok(_) => 2 <= old(self).stack().len() && cmp_model(
                    ty@,
                    *op,
                    popped(old(self).stack(), 2),
                ) is Ok && final(self).stack() == rest(old(self).stack(), 2).push(
                    cmp_model(ty@, *op, popped(old(self).stack(), 2))->Ok_0,
                ),
                Err(e) => if old(self).stack().len() < 2 {
                    e is InternalError && final(self).stack() == old(self).stack()
                } else {
                    cmp_model(ty@, *op, popped(old(self).stack(), 2)) == Err::<EvalModel, Error>(e)
                        && final(self).stack() == rest(old(self).stack(), 2)
                },
            },
    {
        let mut args = match self.pop_args(2) {
            Some(args) => args,
            None => {
                return Err(Error::InternalError);
            },
        };
        proof {
            assert(models_of(args@).len() == 2);
            assert(models_of(args@)[0] == args@[0].model());
            assert(models_of(args@)[1] == args@[1].model());
        }
        let rhs = args.pop().unwrap();
        let lhs = args.pop().unwrap();
        match CmpEvaluator::new(ty.clone(), *op, lhs, rhs) {
            Ok(e) => {
                self.push(EvalNode::Cmp(e));
                Ok(())
            },
            Err(e) => Err(e),
        }
    }

    /// Reduces the two evaluators on top of the stack to that of the operator
    /// `op` on them, whose result has the type `ty`, with a buffer for its
    /// results. Fails with `InternalError`, and changes nothing, where the
    /// stack holds fewer; and, the two taken off, with `UnsupportedFeature`
    /// where the values of `ty` have no size and with `InvalidExpression`
    /// where an operand is of another type than `ty`.
    #[allow(non_snake_case)]
    pub fn Arithm(&mut self, ty: &Ty, op: &ArithmOp) -> (r: Void)
        requires
            old(self).wf(),
        ensures
            final(self).wf(),
            final(self).ctx() == old(self).ctx(),
            match r {
                Ok(_) => 2 <= old(self).stack().len() && bin_model(
                    ty@,
                    *op,
                    popped(old(self).stack(), 2),
                ) is Ok && final(self).stack() == rest(old(self).stack(), 2).push(
                    bin_model(ty@, *op, popped(old(self).stack(), 2))->Ok_0,
                ),
                Err(e) => if old(self).stack().len() < 2 {
                    e is InternalError && final(self).stack() == old(self).stack()
                } else {
                    bin_model(ty@, *op, popped(old(self).stack(), 2)) == Err::<EvalModel, Error>(e)
                        && final(self).stack() == rest(old(self).stack(), 2)
                },
            },
    {
        let mut args = match self.pop_args(2) {
            Some(args) => args,
            None => {
                return Err(Error::InternalError);
            },
        };
        proof {
            assert(models_of(args@).len() == 2);
            assert(models_of(args@)[0] == args@[0].model());
            assert(models_of(args@)[1] == args@[1].model());
        }
        let rhs = args.pop().unwrap();
        let lhs = args.pop().unwrap();
        match BinEvaluator::new(ty.clone(), *op, lhs, rhs) {
            Ok(e) => {
                self.push(EvalNode::Bin(e));
                Ok(())
            },
            Err(e) => Err(e),
        }
    }

    /// Reduces the last `argc` evaluators on the stack to that of a call of
    /// the function `f` on them, whose result has the type `ty`. Fails with
    /// `InternalError`, and changes nothing, where the stack holds fewer; and,
    /// the arguments taken off, with `UndefinedOperator` where no scalar
    /// function of that name is registered for exactly the types of the
    /// arguments and with `InvalidExpression` where the registered function
    /// has a result of another type than `ty`.
    #[allow(non_snake_case)]
    pub fn Func(&mut self, ty: &Ty, f: &FnDecl, argc: usize) -> (r: Void)
        requires
            old(self).wf(),
        ensures
            final(self).wf(),
            final(self).ctx() == old(self).ctx(),
            match r {
                Ok(_) => argc <= old(self).stack().len() && call_model(
                    old(self).ctx(),
                    f.signature@,
                    ty@,
                    popped(old(self).stack(), argc as int),
                ) is Ok && final(self).stack() == rest(old(self).stack(), argc as int).push(
                    call_model(
                        old(self).ctx(),
                        f.signature@,
                        ty@,
                        popped(old(self).stack(), argc as int),
                    )->Ok_0,
                ),
                Err(e) => if old(self).stack().len() < argc {
                    e is InternalError && final(self).stack() == old(self).stack()
                } else {
                    call_model(
                        old(self).ctx(),
                        f.signature@,
                        ty@,
                        popped(old(self).stack(), argc as int),
                    ) == Err::<EvalModel, Error>(e) && final(self).stack() == rest(
                        old(self).stack(),
                        argc as int,
                    )
                },
            },
    {
        let mut args = match self.pop_args(argc) {
            Some(args) => args,
            None => {
                return Err(Error::InternalError);
            },
        };
        let mut arg_types: Vec<Ty> = Vec::new();
        let mut i: usize = 0;
        while i < args.len()
            invariant
                i <= args@.len(),
                arg_types@.len() == i,
                forall|j: int| 0 <= j < i ==> (#[trigger] arg_types@[j])@ == args@[j].model().ty(),
            decreases args@.len() - i,
        {
            arg_types.push(args[i].ty().clone());
            i = i + 1;
        }
        proof {
            assert(models(arg_types@) =~= types_of(models_of(args@)));
        }
        let place = match self.funcs.index_of(f.signature.as_str(), &arg_types, FnKind::Scalar) {
            Some(place) => place,
            None => {
                return Err(Error::UndefinedOperator);
            },
        };
        match self.funcs.find_by(f.signature.as_str(), &arg_types, FnKind::Scalar) {
            Some(body) => {
                if !body.ret_type().same(ty) {
                    return Err(Error::InvalidExpression);
                }
            },
            None => {
                return Err(Error::UndefinedOperator);
            },
        }
        if args.len() == 0 {
            proof {
                assert(models_of(args@) =~= Seq::<EvalModel>::empty());
            }
            self.push(EvalNode::NoArgFn(NoArgFnEvaluator::new(place, ty.clone())));
        } else if args.len() == 1 {
            proof {
                assert(models_of(args@) =~= seq![args@[0].model()]);
            }
            let arg = args.pop().unwrap();
            self.push(EvalNode::UnaryFn(UnaryFnEvaluator::new(place, ty.clone(), arg)));
        } else {
            self.push(
                EvalNode::Form(FormEvaluator::new(Form::Call(place), ty.clone(), args)),
            );
        }
        Ok(())
    }

    /// Pushes the evaluator of the field `name`: that of the first column of
    /// that name, with the column's type. Fails with `UndefinedColumn`, and
    /// changes nothing, where there is no such column.
    #[allow(non_snake_case)]
    pub fn Field(&mut self, ty: &Ty, name: &str) -> (r: Void)
        requires
            old(self).wf(),
        ensures
            final(self).wf(),
            final(self).ctx() == old(self).ctx(),
            match r {
                Ok(_) => field_model(old(self).ctx(), name@) is Ok && final(self).stack()
                    == old(self).stack().push(field_model(old(self).ctx(), name@)->Ok_0),
                Err(e) => field_model(old(self).ctx(), name@) == Err::<EvalModel, Error>(e)
                    && final(self).stack() == old(self).stack(),
            },
    {
        let ghost names = str_views(self.names@);
        let mut i: usize = 0;
        while i < self.names.len()
            invariant
                i <= self.names@.len(),
                *self == *old(self),
                self.wf(),
                names == str_views(self.names@),
                forall|j: int| 0 <= j < i ==> names[j] != name@,
            decreases self.names@.len() - i,
        {
            if str_eq(self.names[i], name) {
                proof {
                    assert(names[i as int] == name@);
                    assert(names.contains(name@));
                    names.index_of_first_ensures(name@);
                    assert(names.index_of_first(name@) == Some(i as int));
                    assert(models(self.types@)[i as int] == self.types@[i as int]@);
                }
                let eval = FieldEvaluator::new(i, self.types[i].clone());
                self.push(EvalNode::Field(eval));
                return Ok(());
            }
            i = i + 1;
        }
        proof {
            if names.contains(name@) {
                let w = names.index_of(name@);
                assert(names[w] == name@);
            }
            names.index_of_first_ensures(name@);
        }
        Err(Error::UndefinedColumn)
    }

    /// Pushes the evaluator of the constant `literal` of the type `ty`.
    /// Fails, and changes nothing, with `UnsupportedFeature` where the literal
    /// is none of a kind that the evaluators read and with
    /// `InvalidExpression` where the values of `ty` are not of the literal's
    /// kind.
    #[allow(non_snake_case)]
    pub fn Const(&mut self, ty: &Ty, literal: &Literal) -> (r: Void)
        requires
            old(self).wf(),
        ensures
            final(self).wf(),
            final(self).ctx() == old(self).ctx(),
            match r {
                Ok(_) => const_model(ty@, *literal) is Ok && final(self).stack()
                    == old(self).stack().push(const_model(ty@, *literal)->Ok_0),
                Err(e) => const_model(ty@, *literal) == Err::<EvalModel, Error>(e)
                    && final(self).stack() == old(self).stack(),
            },
    {
        match ConstEvaluator::new(ty.clone(), literal) {
            Ok(e) => {
                self.push(EvalNode::Const(e));
                Ok(())
            },
            Err(e) => Err(e),
        }
    }

    /// Compiles the expression `e`: compiles its parts, in their order, and
    /// reduces their evaluators to its own, which then lies on top of the
    /// stack. Fails with the first error among the parts, or with that of the
    /// expression itself; the stack then still begins with what it held
    /// before.
    #[verifier::rlimit(40)]
    pub fn accept(&mut self, e: &Expr) -> (r: Void)
        requires
            old(self).wf(),
        ensures
            final(self).wf(),
            final(self).ctx() == old(self).ctx(),
            match r {
                Ok(_) => compiled(old(self).ctx(), *e) is Ok && final(self).stack()
                    == old(self).stack().push(compiled(old(self).ctx(), *e)->Ok_0),
                Err(err) => compiled(old(self).ctx(), *e) == Err::<EvalModel, Error>(err)
                    && old(self).stack().is_prefix_of(final(self).stack()),
            },
        decreases e, 3int,
    {
        let ghost s0 = self.stack();
        let ghost ctx = self.ctx();
        proof {
            lemma_add_empty(s0);
        }
        match e.spec() {
            ExprSpec::Not(c) => {
                self.accept(c)?;
                proof {
                    lemma_push_add(s0, Seq::<EvalModel>::empty(), compiled(ctx, **c)->Ok_0);
                    lemma_pushed(s0, Seq::<EvalModel>::empty().push(compiled(ctx, **c)->Ok_0));
                }
                self.Not(e.ty())
            },
            ExprSpec::IsNull(c, positive) => {
                self.accept(c)?;
                proof {
                    lemma_push_add(s0, Seq::<EvalModel>::empty(), compiled(ctx, **c)->Ok_0);
                    lemma_pushed(s0, Seq::<EvalModel>::empty().push(compiled(ctx, **c)->Ok_0));
                }
                if *positive {
                    self.IsNull(e.ty())
                } else {
                    self.IsNotNull(e.ty())
                }
            },
            ExprSpec::Sign(c, positive) => {
                self.accept(c)?;
                proof {
                    lemma_push_add(s0, Seq::<EvalModel>::empty(), compiled(ctx, **c)->Ok_0);
                    lemma_pushed(s0, Seq::<EvalModel>::empty().push(compiled(ctx, **c)->Ok_0));
                }
                if *positive {
                    self.PlusSign(e.ty())
                } else {
                    self.MinusSign(e.ty())
                }
            },
            ExprSpec::Cast(c, from, to) => {
                self.accept(c)?;
                proof {
                    lemma_push_add(s0, Seq::<EvalModel>::empty(), compiled(ctx, **c)->Ok_0);
                    lemma_pushed(s0, Seq::<EvalModel>::empty().push(compiled(ctx, **c)->Ok_0));
                }
                self.Cast(e.ty(), from, to)
            },
            ExprSpec::Field(name) => {
                self.Field(e.ty(), name.as_str())
            },
            ExprSpec::Const(literal) => {
                self.Const(e.ty(), literal)
            },
            _ => self.accept_binary(e),
        }
    }

    /// Compiles an expression of two parts, and hands on every other one.
    #[verifier::rlimit(40)]
    fn accept_binary(&mut self, e: &Expr) -> (r: Void)
        requires
            old(self).wf(),
            !(e.spec is Not || e.spec is IsNull || e.spec is Sign || e.spec is Cast || e.spec
                is Field || e.spec is Const),
        ensures
            final(self).wf(),
            final(self).ctx() == old(self).ctx(),
            match r {
                Ok(_) => compiled(old(self).ctx(), *e) is Ok && final(self).stack()
                    == old(self).stack().push(compiled(old(self).ctx(), *e)->Ok_0),
                Err(err) => compiled(old(self).ctx(), *e) == Err::<EvalModel, Error>(err)
                    && old(self).stack().is_prefix_of(final(self).stack()),
            },
        decreases e, 2int,
    {
        let ghost s0 = self.stack();
        let ghost ctx = self.ctx();
        proof {
            lemma_add_empty(s0);
        }
        match e.spec() {
            ExprSpec::And(l, r) => {
                self.accept(l)?;
                proof {
                    lemma_push_add(s0, Seq::<EvalModel>::empty(), compiled(ctx, **l)->Ok_0);
                }
                self.accept(r)?;
                proof {
                    lemma_push_add(s0, Seq::<EvalModel>::empty().push(compiled(ctx, **l)->Ok_0),
                        compiled(ctx, **r)->Ok_0);
                    lemma_pushed(s0, Seq::<EvalModel>::empty().push(compiled(ctx,
                        **l)->Ok_0).push(compiled(ctx, **r)->Ok_0));
                }
                self.And(e.ty())
            },
            ExprSpec::Or(l, r) => {
                self.accept(l)?;
                proof {
                    lemma_push_add(s0, Seq::<EvalModel>::empty(), compiled(ctx, **l)->Ok_0);
                }
                self.accept(r)?;
                proof {
                    lemma_push_add(s0, Seq::<EvalModel>::empty().push(compiled(ctx, **l)->Ok_0),
                        compiled(ctx, **r)->Ok_0);
                    lemma_pushed(s0, Seq::<EvalModel>::empty().push(compiled(ctx,
                        **l)->Ok_0).push(compiled(ctx, **r)->Ok_0));
                }
                self.Or(e.ty())
            },
            ExprSpec::Comp(op, l, r) => {
                self.accept(l)?;
                proof {
                    lemma_push_add(s0, Seq::<EvalModel>::empty(), compiled(ctx, **l)->Ok_0);
                }
                self.accept(r)?;
                proof {
                    lemma_push_add(s0, Seq::<EvalModel>::empty().push(compiled(ctx, **l)->Ok_0),
                        compiled(ctx, **r)->Ok_0);
                    lemma_pushed(s0, Seq::<EvalModel>::empty().push(compiled(ctx,
                        **l)->Ok_0).push(compiled(ctx, **r)->Ok_0));
                }
                self.Cmp(e.ty(), op)
            },
            ExprSpec::Arithm(op, l, r) => {
                self.accept(l)?;
                proof {
                    lemma_push_add(s0, Seq::<EvalModel>::empty(), compiled(ctx, **l)->Ok_0);
                }
                self.accept(r)?;
                proof {
                    lemma_push_add(s0, Seq::<EvalModel>::empty().push(compiled(ctx, **l)->Ok_0),
                        compiled(ctx, **r)->Ok_0);
                    lemma_pushed(s0, Seq::<EvalModel>::empty().push(compiled(ctx,
                        **l)->Ok_0).push(compiled(ctx, **r)->Ok_0));
                }
                self.Arithm(e.ty(), op)
            },
            ExprSpec::Concat(l, r) => {
                self.accept(l)?;
                proof {
                    lemma_push_add(s0, Seq::<EvalModel>::empty(), compiled(ctx, **l)->Ok_0);
                }
                self.accept(r)?;
                proof {
                    lemma_push_add(s0, Seq::<EvalModel>::empty().push(compiled(ctx, **l)->Ok_0),
                        compiled(ctx, **r)->Ok_0);
                    lemma_pushed(s0, Seq::<EvalModel>::empty().push(compiled(ctx,
                        **l)->Ok_0).push(compiled(ctx, **r)->Ok_0));
                }
                self.form(Form::Concat, e.ty(), 2)
            },
            ExprSpec::IfThen(c, x) => {
                self.accept(c)?;
                proof {
                    lemma_push_add(s0, Seq::<EvalModel>::empty(), compiled(ctx, **c)->Ok_0);
                }
                self.accept(x)?;
                proof {
                    lemma_push_add(s0, Seq::<EvalModel>::empty().push(compiled(ctx, **c)->Ok_0),
                        compiled(ctx, **x)->Ok_0);
                    lemma_pushed(s0, Seq::<EvalModel>::empty().push(compiled(ctx,
                        **c)->Ok_0).push(compiled(ctx, **x)->Ok_0));
                }
                self.form(Form::IfThen, e.ty(), 2)
            },
            _ => self.accept_pattern(e),
        }
    }

    /// Compiles a pattern matching predicate or a test of a range, and hands
    /// on every other expression.
    #[verifier::rlimit(40)]
    fn accept_pattern(&mut self, e: &Expr) -> (r: Void)
        requires
            old(self).wf(),
            e.spec is Like || e.spec is SimilarTo || e.spec is RegexMatch || e.spec is Between
                || e.spec is Fn || e.spec is Row || e.spec is In || e.spec is Case,
        ensures
            final(self).wf(),
            final(self).ctx() == old(self).ctx(),
            match r {
                Ok(_) => compiled(old(self).ctx(), *e) is Ok && final(self).stack()
                    == old(self).stack().push(compiled(old(self).ctx(), *e)->Ok_0),
                Err(err) => compiled(old(self).ctx(), *e) == Err::<EvalModel, Error>(err)
                    && old(self).stack().is_prefix_of(final(self).stack()),
            },
        decreases e, 1int,
    {
        let ghost s0 = self.stack();
        let ghost ctx = self.ctx();
        proof {
            lemma_add_empty(s0);
        }
        match e.spec() {
            ExprSpec::Like(p, v, not) => {
                self.accept(p)?;
                proof {
                    lemma_push_add(s0, Seq::<EvalModel>::empty(), compiled(ctx, **p)->Ok_0);
                }
                self.accept(v)?;
                proof {
                    lemma_push_add(s0, Seq::<EvalModel>::empty().push(compiled(ctx, **p)->Ok_0),
                        compiled(ctx, **v)->Ok_0);
                    lemma_pushed(s0, Seq::<EvalModel>::empty().push(compiled(ctx,
                        **p)->Ok_0).push(compiled(ctx, **v)->Ok_0));
                }
                self.form(Form::Like(*not), e.ty(), 2)
            },
            ExprSpec::SimilarTo(p, v, not) => {
                self.accept(p)?;
                proof {
                    lemma_push_add(s0, Seq::<EvalModel>::empty(), compiled(ctx, **p)->Ok_0);
                }
                self.accept(v)?;
                proof {
                    lemma_push_add(s0, Seq::<EvalModel>::empty().push(compiled(ctx, **p)->Ok_0),
                        compiled(ctx, **v)->Ok_0);
                    lemma_pushed(s0, Seq::<EvalModel>::empty().push(compiled(ctx,
                        **p)->Ok_0).push(compiled(ctx, **v)->Ok_0));
                }
                self.form(Form::SimilarTo(*not), e.ty(), 2)
            },
            ExprSpec::RegexMatch(p, v, not) => {
                self.accept(p)?;
                proof {
                    lemma_push_add(s0, Seq::<EvalModel>::empty(), compiled(ctx, **p)->Ok_0);
                }
                self.accept(v)?;
                proof {
                    lemma_push_add(s0, Seq::<EvalModel>::empty().push(compiled(ctx, **p)->Ok_0),
                        compiled(ctx, **v)->Ok_0);
                    lemma_pushed(s0, Seq::<EvalModel>::empty().push(compiled(ctx,
                        **p)->Ok_0).push(compiled(ctx, **v)->Ok_0));
                }
                self.form(Form::RegexMatch(*not), e.ty(), 2)
            },
            ExprSpec::Between(p, b, x) => {
                self.accept(p)?;
                proof {
                    lemma_push_add(s0, Seq::<EvalModel>::empty(), compiled(ctx, **p)->Ok_0);
                }
                self.accept(b)?;
                proof {
                    lemma_push_add(s0, Seq::<EvalModel>::empty().push(compiled(ctx, **p)->Ok_0),
                        compiled(ctx, **b)->Ok_0);
                }
                self.accept(x)?;
                proof {
                    lemma_push_add(s0, Seq::<EvalModel>::empty().push(compiled(ctx,
                        **p)->Ok_0).push(compiled(ctx, **b)->Ok_0), compiled(ctx, **x)->Ok_0);
                    lemma_pushed(s0, Seq::<EvalModel>::empty().push(compiled(ctx,
                        **p)->Ok_0).push(compiled(ctx, **b)->Ok_0).push(compiled(ctx, **x)->Ok_0));
                }
                self.form(Form::Between, e.ty(), 3)
            },
            _ => self.accept_list(e),
        }
    }

    /// Compiles an expression that has a list of parts.
    #[verifier::rlimit(40)]
    fn accept_list(&mut self, e: &Expr) -> (r: Void)
        requires
            old(self).wf(),
            e.spec is Fn || e.spec is Row || e.spec is In || e.spec is Case,
        ensures
            final(self).wf(),
            final(self).ctx() == old(self).ctx(),
            match r {
                Ok(_) => compiled(old(self).ctx(), *e) is Ok && final(self).stack()
                    == old(self).stack().push(compiled(old(self).ctx(), *e)->Ok_0),
                Err(err) => compiled(old(self).ctx(), *e) == Err::<EvalModel, Error>(err)
                    && old(self).stack().is_prefix_of(final(self).stack()),
            },
        decreases e, 0int,
    {
        let ghost s0 = self.stack();
        let ghost ctx = self.ctx();
        proof {
            lemma_add_empty(s0);
        }
        match e.spec() {
            ExprSpec::Fn(decl, es) => {
                self.accept_all(es)?;
                proof {
                    lemma_compiled_all_len(ctx, es@);
                    lemma_pushed(s0, compiled_all(ctx, es@)->Ok_0);
                }
                self.Func(e.ty(), decl, es.len())
            },
            ExprSpec::Row(vs) => {
                self.accept_all(vs)?;
                proof {
                    lemma_compiled_all_len(ctx, vs@);
                    lemma_pushed(s0, compiled_all(ctx, vs@)->Ok_0);
                }
                self.form(Form::Row, e.ty(), vs.len())
            },
            ExprSpec::In(p, vs) => {
                self.accept(p)?;
                self.accept_all(vs)?;
                proof {
                    let first = Seq::<EvalModel>::empty().push(compiled(ctx, **p)->Ok_0);
                    lemma_push_add(s0, Seq::<EvalModel>::empty(), compiled(ctx, **p)->Ok_0);
                    lemma_add_add(s0, first, compiled_all(ctx, vs@)->Ok_0);
                    lemma_compiled_all_len(ctx, vs@);
                    lemma_pushed(s0, first + compiled_all(ctx, vs@)->Ok_0);
                }
                self.form_split(Form::In, e.ty(), 1, vs.len())
            },
            ExprSpec::Case(cs, x) => {
                self.accept_all(cs)?;
                self.accept(x)?;
                proof {
                    let conds = compiled_all(ctx, cs@)->Ok_0;
                    lemma_push_add(s0, conds, compiled(ctx, **x)->Ok_0);
                    lemma_compiled_all_len(ctx, cs@);
                    lemma_pushed(s0, conds.push(compiled(ctx, **x)->Ok_0));
                }
                self.form_split(Form::Case, e.ty(), cs.len(), 1)
            },
            _ => Err(Error::InternalError),
        }
    }

    /// Compiles the expressions `es`, in their order: afterwards their
    /// evaluators lie on top of the stack, that of the last on top. Fails with
    /// the first error among them; the stack then still begins with what it
    /// held before.
    pub fn accept_all(&mut self, es: &Vec<Box<Expr>>) -> (r: Void)
        requires
            old(self).wf(),
        ensures
            final(self).wf(),
            final(self).ctx() == old(self).ctx(),
            match r {
                Ok(_) => compiled_all(old(self).ctx(), es@) is Ok && final(self).stack()
                    == old(self).stack() + compiled_all(old(self).ctx(), es@)->Ok_0,
                Err(err) => compiled_all(old(self).ctx(), es@) == Err::<Seq<EvalModel>, Error>(
                    err,
                ) && old(self).stack().is_prefix_of(final(self).stack()),
            },
        decreases es, 0int,
    {
        let ghost s0 = self.stack();
        let ghost ctx = self.ctx();
        let mut i: usize = 0;
        proof {
            assert(es@.take(0) =~= Seq::<Box<Expr>>::empty());
            lemma_add_empty(s0);
        }
        while i < es.len()
            invariant
                i <= es@.len(),
                self.wf(),
                self.ctx() == ctx,
                ctx == old(self).ctx(),
                s0 == old(self).stack(),
                compiled_all(ctx, es@.take(i as int)) is Ok,
                self.stack() == s0 + compiled_all(ctx, es@.take(i as int))->Ok_0,
            decreases es@.len() - i,
        {
            proof {
                vstd::std_specs::vec::axiom_vec_index_decreases(*es, i as int);
                assert(decreases_to!(es => es@[i as int]));
                assert(es@.take(i as int + 1).drop_last() =~= es@.take(i as int));
                assert(es@.take(i as int + 1).last() == es@[i as int]);
            }
            match self.accept(&es[i]) {
                Ok(_) => {
                    proof {
                        lemma_push_add(
                            s0,
                            compiled_all(ctx, es@.take(i as int))->Ok_0,
                            compiled(ctx, *es@[i as int])->Ok_0,
                        );
                    }
                },
                Err(err) => {
                    proof {
                        lemma_compiled_all_prefix(ctx, es@, i as int + 1);
                    }
                    return Err(err);
                },
            }
            i = i + 1;
        }
        proof {
            assert(es@.take(i as int) =~= es@);
        }
        Ok(())
    }
}

/// A column that holds what a yielded column holds is yielded as well.
pub proof fn lemma_yields_copy(
    model: EvalModel,
    columns: Seq<MiniPage>,
    active: Option<Seq<usize>>,
    column: MiniPage,
    copy: MiniPage,
)
    requires
        model.yields(columns, active, column),
        copy.wf(),
        copy.spec_width() == column.spec_width(),
        copy.bytes() == column.bytes(),
    ensures
        model.yields(columns, active, copy),
{
}

/// Processor that evaluates compiled expressions, one for each column of the
/// page under construction.
pub struct InterpreterProcessor {
    evals: Vec<EvalNode>,
}

/// Whether the first `n` evaluators yield, on the page with the columns
/// `input` and the active rows `active`, what the first `n` of `columns`
/// hold.
pub open spec fn processed(
    evaluators: Seq<EvalModel>,
    input: Seq<MiniPage>,
    active: Option<Seq<usize>>,
    columns: Seq<MiniPage>,
    n: int,
) -> bool {
    forall|i: int|
        0 <= i < n ==> (#[trigger] evaluators[i]).error_on(input, active) is None
            && evaluators[i].yields(input, active, columns[i])
}

/// The widths of the columns, one for one.
pub open spec fn widths_of(columns: Seq<MiniPage>) -> Seq<nat> {
    Seq::new(columns.len(), |k: int| columns[k].spec_width())
}

/// Whether evaluating fails with `e` at the evaluator at place `i`, after
/// the evaluators before it yielded their columns: that evaluator fails with
/// `e`, or `e` is `InternalError` and the evaluator yields a column of another
/// width than the column at place `i` of the page under construction.
pub open spec fn fails_at(
    evaluators: Seq<EvalModel>,
    input: Seq<MiniPage>,
    active: Option<Seq<usize>>,
    widths: Seq<nat>,
    i: int,
    e: Error,
) -> bool {
    &&& forall|j: int| 0 <= j < i ==> (#[trigger] evaluators[j]).error_on(input, active) is None
    &&& evaluators[i].error_on(input, active) == Some(e) || (evaluators[i].error_on(input, active)
        is None && e is InternalError && evaluators[i].ty().size_of() != widths[i])
}

impl InterpreterProcessor {
    /// What the evaluators stand for, in the order of the output columns.
    pub closed spec fn evaluators(&self) -> Seq<EvalModel> {
        models_of(self.evals@)
    }

    /// What holds of every processor: its evaluators are well formed.
    pub closed spec fn wf(&self) -> bool {
        nodes_wf(self.evals@)
    }

    /// Compiles `exprs` against `schema` and the registered functions, one
    /// evaluator for each expression. Fails with the first error among them.
    pub fn new(
        fn_registry: &FuncRegistry,
        session: &Session,
        schema: &NamedSchema,
        exprs: &Vec<Box<Expr>>,
    ) -> (r: TResult<InterpreterProcessor>)
        requires
            fn_registry.wf(),
            schema.names@.len() == schema.types@.len(),
        ensures
            match r {
                Ok(processor) => processor.wf() && compiled_all(
                    Context {
                        names: str_views(schema.names@),
                        types: models(schema.types@),
                        funcs: fn_registry.entries(),
                    },
                    exprs@,
                ) == Ok::<Seq<EvalModel>, Error>(processor.evaluators()),
                Err(e) => compiled_all(
                    Context {
                        names: str_views(schema.names@),
                        types: models(schema.types@),
                        funcs: fn_registry.entries(),
                    },
                    exprs@,
                ) == Err::<Seq<EvalModel>, Error>(e),
            },
    {
        let ghost ctx = Context {
            names: str_views(schema.names@),
            types: models(schema.types@),
            funcs: fn_registry.entries(),
        };
        let mut evals: Vec<EvalNode> = Vec::new();
        let mut i: usize = 0;
        proof {
            assert(exprs@.take(0) =~= Seq::<Box<Expr>>::empty());
            assert(models_of(evals@) =~= Seq::<EvalModel>::empty());
        }
        while i < exprs.len()
            invariant
                i <= exprs@.len(),
                fn_registry.wf(),
                schema.names@.len() == schema.types@.len(),
                ctx == (Context {
                    names: str_views(schema.names@),
                    types: models(schema.types@),
                    funcs: fn_registry.entries(),
                }),
                nodes_wf(evals@),
                compiled_all(ctx, exprs@.take(i as int)) == Ok::<Seq<EvalModel>, Error>(
                    models_of(evals@),
                ),
            decreases exprs@.len() - i,
        {
            proof {
                assert(exprs@.take(i as int + 1).drop_last() =~= exprs@.take(i as int));
                assert(exprs@.take(i as int + 1).last() == exprs@[i as int]);
            }
            match Interpreter::build(fn_registry, session, schema.types, schema.names, &exprs[i]) {
                Ok(evaluator) => {
                    proof {
                        lemma_models_push(evals@, evaluator);
                    }
                    evals.push(evaluator);
                },
                Err(e) => {
                    proof {
                        lemma_compiled_all_prefix(ctx, exprs@, i as int + 1);
                    }
                    return Err(e);
                },
            }
            i = i + 1;
        }
        proof {
            assert(exprs@.take(i as int) =~= exprs@);
        }
        Ok(InterpreterProcessor { evals })
    }

    /// Evaluates the expressions on `input`, in their order, into the columns
    /// of the page under construction: the first into the first, and so on,
    /// for as many as there are both expressions and columns. The other
    /// columns stay as they are. Fails at the first expression that fails or
    /// that yields a column of another width than its column of the page
    /// under construction; the columns before it then hold their results.
    pub fn run(&mut self, input: &Page, builder: &mut PageBuilder) -> (r: Void)
        requires
            old(self).wf(),
            input.wf(),
            old(builder).wf(),
        ensures
            final(self).wf(),
            final(self).evaluators() == old(self).evaluators(),
            final(builder).wf(),
            final(builder).page().columns().len() == old(builder).page().columns().len(),
            final(builder).page().rows() == old(builder).page().rows(),
            final(builder).page().active() == old(builder).page().active(),
            forall|i: int|
                0 <= i < old(builder).page().columns().len()
                    ==> (#[trigger] final(builder).page().columns()[i]).spec_width()
                    == old(builder).page().columns()[i].spec_width(),
            match r {
                Ok(_) => {
                    let n = if old(self).evaluators().len() <= old(builder).page().columns().len() {
                        old(self).evaluators().len() as int
                    } else {
                        old(builder).page().columns().len() as int
                    };
                    &&& processed(
                        old(self).evaluators(),
                        input.columns(),
                        input.active(),
                        final(builder).page().columns(),
                        n,
                    )
                    &&& forall|i: int|
                        n <= i < old(builder).page().columns().len()
                            ==> (#[trigger] final(builder).page().columns()[i])
                            == old(builder).page().columns()[i]
                },
                Err(e) => exists|i: int|
                    0 <= i < old(self).evaluators().len()
                        && i < old(builder).page().columns().len() && #[trigger] fails_at(
                        old(self).evaluators(),
                        input.columns(),
                        input.active(),
                        widths_of(old(builder).page().columns()),
                        i,
                        e,
                    ) && processed(
                        old(self).evaluators(),
                        input.columns(),
                        input.active(),
                        final(builder).page().columns(),
                        i,
                    ),
            },
    {
        let n: usize = if self.evals.len() <= builder.column_num() {
            self.evals.len()
        } else {
            builder.column_num()
        };
        let ghost models = self.evaluators();
        let ghost widths = widths_of(old(builder).page().columns());
        let mut i: usize = 0;
        while i < n
            invariant
                i <= n,
                n <= self.evals@.len(),
                n <= builder.page().columns().len(),
                n == if old(self).evaluators().len() <= old(builder).page().columns().len() {
                    old(self).evaluators().len() as int
                } else {
                    old(builder).page().columns().len() as int
                },
                input.wf(),
                self.wf(),
                builder.wf(),
                models == old(self).evaluators(),
                self.evaluators() == models,
                widths == widths_of(old(builder).page().columns()),
                builder.page().columns().len() == old(builder).page().columns().len(),
                builder.page().rows() == old(builder).page().rows(),
                builder.page().active() == old(builder).page().active(),
                forall|k: int|
                    0 <= k < builder.page().columns().len() ==> (
                    #[trigger] builder.page().columns()[k]).spec_width() == widths[k],
                forall|k: int|
                    i <= k < builder.page().columns().len() ==> (
                    #[trigger] builder.page().columns()[k]) == old(builder).page().columns()[k],
                processed(
                    models,
                    input.columns(),
                    input.active(),
                    builder.page().columns(),
                    i as int,
                ),
            decreases n - i,
        {
            let ghost before = self.evals@;
            let ghost cols = builder.page().columns();
            let width: usize = builder.column_width(i);
            proof {
                assert(before[i as int].wf());
                assert(models[i as int] == before[i as int].model());
            }
            match self.evals[i].eval(input) {
                Ok(column) => {
                    if column.width() != width {
                        proof {
                            assert(fails_at(
                                models,
                                input.columns(),
                                input.active(),
                                widths,
                                i as int,
                                Error::InternalError,
                            ));
                        }
                        return Err(Error::InternalError);
                    }
                    builder.set_column(i, column);
                    proof {
                        lemma_yields_copy(
                            models[i as int],
                            input.columns(),
                            input.active(),
                            *column,
                            builder.page().columns()[i as int],
                        );
                        assert forall|k: int| 0 <= k < i
                            + 1 implies (#[trigger] models[k]).error_on(
                            input.columns(),
                            input.active(),
                        ) is None && models[k].yields(
                            input.columns(),
                            input.active(),
                            builder.page().columns()[k],
                        ) by {
                            if k < i {
                                assert(builder.page().columns()[k] == cols[k]);
                            }
                        }
                    }
                },
                Err(e) => {
                    proof {
                        assert(fails_at(
                            models,
                            input.columns(),
                            input.active(),
                            widths,
                            i as int,
                            e,
                        ));
                    }
                    return Err(e);
                },
            }
            proof {
                assert(self.evaluators() =~= models) by {
                    assert forall|k: int| 0 <= k < self.evals@.len() implies (
                    #[trigger] self.evals@[k]).model() == before[k].model() by {}
                }
                assert(nodes_wf(self.evals@)) by {
                    assert forall|k: int| 0 <= k < self.evals@.len() implies (
                    #[trigger] self.evals@[k]).wf() by {
                        if k != i {
                            assert(before[k].wf());
                        }
                    }
                }
            }
            i = i + 1;
        }
        Ok(())
    }
}

impl Processor for InterpreterProcessor {
    open spec fn spec_wf(&self) -> bool {
        self.wf()
    }

    /// Evaluates the expressions on `input` into the columns of the page
    /// under construction, as `run` does.
    fn process(&mut self, input: &Page, builder: &mut PageBuilder) -> (r: Void)
        ensures
            final(self).evaluators() == old(self).evaluators(),
            final(builder).page().columns().len() == old(builder).page().columns().len(),
            final(builder).page().rows() == old(builder).page().rows(),
            final(builder).page().active() == old(builder).page().active(),
            forall|i: int|
                0 <= i < old(builder).page().columns().len()
                    ==> (#[trigger] final(builder).page().columns()[i]).spec_width()
                    == old(builder).page().columns()[i].spec_width(),
            match r {
                Ok(_) => {
                    let n = if old(self).evaluators().len() <= old(builder).page().columns().len() {
                        old(self).evaluators().len() as int
                    } else {
                        old(builder).page().columns().len() as int
                    };
                    &&& processed(
                        old(self).evaluators(),
                        input.columns(),
                        input.active(),
                        final(builder).page().columns(),
                        n,
                    )
                    &&& forall|i: int|
                        n <= i < old(builder).page().columns().len()
                            ==> (#[trigger] final(builder).page().columns()[i])
                            == old(builder).page().columns()[i]
                },
                Err(e) => exists|i: int|
                    0 <= i < old(self).evaluators().len()
                        && i < old(builder).page().columns().len() && #[trigger] fails_at(
                        old(self).evaluators(),
                        input.columns(),
                        input.active(),
                        widths_of(old(builder).page().columns()),
                        i,
                        e,
                    ) && processed(
                        old(self).evaluators(),
                        input.columns(),
                        input.active(),
                        final(builder).page().columns(),
                        i,
                    ),
            },
    {
        self.run(input, builder)
    }
}

} // verus!
