use tajo::common::func::{FnKind, FuncBody, FuncSignature, InvokeMethod, NoArgFn};
use tajo::common::plugin::FuncRegistry;
use tajo::common::types::Ty;
use tajo::constant::VECTOR_SIZE;
use tajo::err::{Error, Void};
use tajo::exec::evaluator::{EvalNode, Evaluator, Form};
use tajo::exec::processor::{Interpreter, InterpreterProcessor, Session};
use tajo::exec::{NamedSchema, Processor};
use tajo::plan::expr::{ArithmOp, CompOp, Expr, ExprSpec, FnDecl, Literal};
use tajo::rows::minipage::MiniPage;
use tajo::rows::page::{Page, PageBuilder};

const NAMES: [&str; 8] = [
    "l_orderkey",
    "l_partkey",
    "l_suppkey",
    "l_linenumber",
    "l_quantity",
    "l_extendedprice",
    "l_discount",
    "l_tax",
];

fn types() -> Vec<Ty> {
    vec![Ty::Int8, Ty::Int8, Ty::Int8, Ty::Int4, Ty::Int8, Ty::Int8, Ty::Int8, Ty::Int8]
}

fn names() -> Vec<&'static str> {
    NAMES.to_vec()
}

/// A page of `rows` rows in which row r of column c holds 100 * c + r, and
/// the columns of discount and tax hold 3 and 7 in every row.
fn lineitem(rows: usize) -> Page {
    let mut columns = Vec::new();
    for c in 0..8 {
        if c == 3 {
            let values: Vec<i32> = (0..rows).map(|r| (100 * c + r) as i32).collect();
            columns.push(MiniPage::from_vec(&values));
        } else {
            let values: Vec<i64> = (0..rows)
                .map(|r| match c {
                    6 => 3,
                    7 => 7,
                    _ => (100 * c + r) as i64,
                })
                .collect();
            columns.push(MiniPage::from_vec(&values));
        }
    }
    Page::new(columns, rows)
}

fn field(ty: Ty, name: &str) -> Expr {
    Expr::new(ty, ExprSpec::Field(name.to_string()))
}

fn int8(v: i64) -> Expr {
    Expr::new(Ty::Int8, ExprSpec::Const(Literal::Int8(v)))
}

fn arithm(ty: Ty, op: ArithmOp, l: Expr, r: Expr) -> Expr {
    Expr::new(ty, ExprSpec::Arithm(op, Box::new(l), Box::new(r)))
}

fn comp(op: CompOp, l: Expr, r: Expr) -> Expr {
    Expr::new(Ty::Bool, ExprSpec::Comp(op, Box::new(l), Box::new(r)))
}

fn build(e: &Expr) -> Result<EvalNode, Error> {
    let funcs = FuncRegistry::new();
    let session = Session;
    let types = types();
    let names = names();
    Interpreter::build(&funcs, &session, &types, &names, e)
}

#[test]
fn test_field_yields_the_column_of_its_position() {
    let mut eval = build(&field(Ty::Int8, "l_tax")).unwrap();
    assert!(eval.ty().same(&Ty::Int8));
    for rows in [0usize, 5, VECTOR_SIZE].iter() {
        let page = lineitem(*rows);
        let column = eval.evaluate(&page).unwrap();
        // the column of the page itself, not a copy
        assert!(std::ptr::eq(column, page.minipage(7)));
    }
    let mut other = build(&field(Ty::Int4, "l_linenumber")).unwrap();
    let page = lineitem(4);
    let column = other.evaluate(&page).unwrap();
    assert!(std::ptr::eq(column, page.minipage(3)));
    assert_eq!(column.to_vec::<i32>(4), vec![300, 301, 302, 303]);
}

#[test]
fn test_field_takes_the_type_of_the_column() {
    // the type of the column stands whatever type the expression declares
    let eval = build(&field(Ty::Bool, "l_linenumber")).unwrap();
    assert!(eval.ty().same(&Ty::Int4));
}

#[test]
fn test_field_of_equal_names_is_the_first() {
    let funcs = FuncRegistry::new();
    let types = vec![Ty::Int4, Ty::Int8, Ty::Int2];
    let names = vec!["a", "b", "b"];
    let e = field(Ty::Int8, "b");
    let mut eval = Interpreter::build(&funcs, &Session, &types, &names, &e).unwrap();
    let page = Page::new(
        vec![
            MiniPage::from_vec(&vec![1i32]),
            MiniPage::from_vec(&vec![2i64]),
            MiniPage::from_vec(&vec![3i16]),
        ],
        1,
    );
    let column = eval.evaluate(&page).unwrap();
    assert!(std::ptr::eq(column, page.minipage(1)));
}

#[test]
fn test_unresolved_field_fails_at_compile_time() {
    assert!(matches!(build(&field(Ty::Int8, "l_comment")), Err(Error::UndefinedColumn)));
    let inside = arithm(Ty::Int8, ArithmOp::Plus, int8(1), field(Ty::Int8, "nope"));
    assert!(matches!(build(&inside), Err(Error::UndefinedColumn)));
}

#[test]
pub fn tpch_q1() {
    // l_extendedprice * (1 - l_discount), and that times (1 + l_tax)
    let sum_disc_price = arithm(
        Ty::Int8,
        ArithmOp::Mul,
        field(Ty::Int8, "l_extendedprice"),
        arithm(Ty::Int8, ArithmOp::Sub, int8(1), field(Ty::Int8, "l_discount")),
    );
    let sum_charge = arithm(
        Ty::Int8,
        ArithmOp::Mul,
        sum_disc_price.clone(),
        arithm(Ty::Int8, ArithmOp::Plus, int8(1), field(Ty::Int8, "l_tax")),
    );
    let exprs = vec![Box::new(sum_disc_price), Box::new(sum_charge)];

    let funcs = FuncRegistry::new();
    let types = types();
    let names = names();
    let schema = NamedSchema::new(&names, &types);
    let mut processor = InterpreterProcessor::new(&funcs, &Session, &schema, &exprs).unwrap();

    let output_tys = vec![Ty::Int8, Ty::Int8];
    let mut builder = PageBuilder::new(&output_tys);
    assert_eq!(builder.column_num(), 2);

    let input = lineitem(VECTOR_SIZE);
    processor.process(&input, &mut builder).unwrap();
    let page = builder.build(input.value_count());
    assert_eq!(2, page.minipage_num());
    assert_eq!(1024, page.value_count());
    let prices = page.minipage(0).to_vec::<i64>(VECTOR_SIZE);
    let charges = page.minipage(1).to_vec::<i64>(VECTOR_SIZE);
    for r in 0..VECTOR_SIZE {
        let ext = (500 + r) as i64;
        assert_eq!(prices[r], ext * (1 - 3));
        assert_eq!(charges[r], ext * (1 - 3) * (1 + 7));
    }

    // the buffers are used again for the next page
    builder.reset();
    let next = lineitem(2);
    processor.process(&next, &mut builder).unwrap();
    let page = builder.build(next.value_count());
    assert_eq!(page.value_count(), 2);
    assert_eq!(page.minipage(0).to_vec::<i64>(2), vec![-1000, -1002]);
}

#[test]
fn test_operator_on_the_active_rows_only() {
    let e = arithm(
        Ty::Int8,
        ArithmOp::Plus,
        field(Ty::Int8, "l_orderkey"),
        field(Ty::Int8, "l_partkey"),
    );
    let mut eval = build(&e).unwrap();
    let mut page = lineitem(4);
    page.set_selection(vec![3, 1]);
    let column = eval.evaluate(&page).unwrap();
    // rows 1 and 3 hold the sums, the other rows what the buffer held: zeros
    assert_eq!(column.to_vec::<i64>(4), vec![0, 1 + 101, 0, 3 + 103]);
    page.clear_selection();
    let column = eval.evaluate(&page).unwrap();
    assert_eq!(column.to_vec::<i64>(4), vec![100, 102, 104, 106]);
}

#[test]
fn test_operator_without_a_result_fails() {
    let e = arithm(
        Ty::Int8,
        ArithmOp::Div,
        field(Ty::Int8, "l_extendedprice"),
        field(Ty::Int8, "l_orderkey"),
    );
    let mut eval = build(&e).unwrap();
    // the first order key is 0: no quotient in row 0
    let mut page = lineitem(VECTOR_SIZE);
    assert!(matches!(eval.evaluate(&page), Err(Error::InvalidExpression)));
    page.set_selection(vec![1, 2]);
    let column = eval.evaluate(&page).unwrap();
    assert_eq!(column.to_vec::<i64>(3)[1..], [501 / 1, 502 / 2]);

    let over = arithm(Ty::Int8, ArithmOp::Plus, int8(i64::MAX), field(Ty::Int8, "l_tax"));
    let mut eval = build(&over).unwrap();
    assert!(matches!(eval.evaluate(&lineitem(VECTOR_SIZE)), Err(Error::InvalidExpression)));
}

#[test]
fn test_constant_fills_its_column() {
    let mut eval = build(&int8(-5)).unwrap();
    let page = lineitem(1);
    let column = eval.evaluate(&page).unwrap();
    assert!(column.to_vec::<i64>(VECTOR_SIZE).iter().all(|v| *v == -5));

    let b = Expr::new(Ty::Bool, ExprSpec::Const(Literal::Bool(true)));
    let mut eval = build(&b).unwrap();
    assert!(eval.evaluate(&page).unwrap().to_vec::<bool>(VECTOR_SIZE).iter().all(|v| *v));

    let f = Expr::new(Ty::Float8, ExprSpec::Const(Literal::Float8((1.5f64).to_bits())));
    let mut eval = build(&f).unwrap();
    let bits = eval.evaluate(&page).unwrap().get::<u64>(1023);
    assert_eq!(f64::from_bits(bits), 1.5);

    let d = Expr::new(Ty::Date, ExprSpec::Const(Literal::Date(19000)));
    let mut eval = build(&d).unwrap();
    assert_eq!(eval.evaluate(&page).unwrap().get::<i32>(7), 19000);
}

#[test]
fn test_constants_that_are_refused() {
    let text = Expr::new(Ty::Clob, ExprSpec::Const(Literal::Text("x".to_string())));
    assert!(matches!(build(&text), Err(Error::UnsupportedFeature)));
    let interval = Expr::new(Ty::Interval, ExprSpec::Const(Literal::Interval(1, 2)));
    assert!(matches!(build(&interval), Err(Error::UnsupportedFeature)));
    // a 32-bit literal is no value of a 64-bit type
    let narrow = Expr::new(Ty::Int8, ExprSpec::Const(Literal::Int4(1)));
    assert!(matches!(build(&narrow), Err(Error::InvalidExpression)));
    let unread = Expr::new(Ty::Clob, ExprSpec::Const(Literal::Int4(1)));
    assert!(matches!(build(&unread), Err(Error::InvalidExpression)));
}

#[test]
fn test_operators_that_are_refused() {
    // the operands must be of the type of the result
    let mixed = arithm(
        Ty::Int8,
        ArithmOp::Plus,
        field(Ty::Int8, "l_tax"),
        field(Ty::Int4, "l_linenumber"),
    );
    assert!(matches!(build(&mixed), Err(Error::InvalidExpression)));
    // a numeric has no size yet
    let numeric =
        arithm(Ty::Numeric(10, Some(2)), ArithmOp::Plus, int8(1), field(Ty::Int8, "l_tax"));
    assert!(matches!(build(&numeric), Err(Error::UnsupportedFeature)));
    // the error of the first part comes first
    let both = arithm(Ty::Int8, ArithmOp::Plus, field(Ty::Int8, "nope"), mixed_again());
    assert!(matches!(build(&both), Err(Error::UndefinedColumn)));
}

fn mixed_again() -> Expr {
    arithm(Ty::Int8, ArithmOp::Plus, int8(1), Expr::new(Ty::Int8, ExprSpec::Const(Literal::Int4(1))))
}

#[test]
fn test_floats_are_compiled_and_not_computed() {
    let funcs = FuncRegistry::new();
    let types = vec![Ty::Float8];
    let names = vec!["x"];
    let e = arithm(Ty::Float8, ArithmOp::Plus, field(Ty::Float8, "x"), field(Ty::Float8, "x"));
    let mut eval = Interpreter::build(&funcs, &Session, &types, &names, &e).unwrap();
    let page = Page::new(vec![MiniPage::new(8)], 1);
    assert!(matches!(eval.evaluate(&page), Err(Error::UnsupportedFeature)));
}

#[test]
fn test_evaluator_on_a_page_of_another_schema() {
    let mut eval = build(&field(Ty::Int8, "l_tax")).unwrap();
    let short = Page::new(vec![MiniPage::new(8)], 1);
    assert!(matches!(eval.evaluate(&short), Err(Error::UndefinedColumn)));
    let mut narrow = build(&field(Ty::Int8, "l_orderkey")).unwrap();
    let page = Page::new(vec![MiniPage::new(4)], 1);
    assert!(matches!(narrow.evaluate(&page), Err(Error::UndefinedColumn)));
}

#[test]
fn test_other_forms_are_compiled_and_not_evaluated() {
    let not = Expr::new(
        Ty::Bool,
        ExprSpec::Not(Box::new(comp(CompOp::Lt, field(Ty::Int8, "l_tax"), int8(3)))),
    );
    let mut eval = build(&not).unwrap();
    assert!(matches!(eval, EvalNode::Form(_)));
    assert!(eval.ty().same(&Ty::Bool));
    assert!(matches!(eval.evaluate(&lineitem(1)), Err(Error::NotImplemented)));

    let case = Expr::new(
        Ty::Int8,
        ExprSpec::Case(
            vec![
                Box::new(Expr::new(
                    Ty::Int8,
                    ExprSpec::IfThen(
                        Box::new(comp(CompOp::Eq, field(Ty::Int8, "l_tax"), int8(7))),
                        Box::new(int8(1)),
                    ),
                )),
            ],
            Box::new(int8(0)),
        ),
    );
    assert!(matches!(build(&case), Ok(EvalNode::Form(_))));
    let between = Expr::new(
        Ty::Bool,
        ExprSpec::Between(Box::new(field(Ty::Int8, "l_tax")), Box::new(int8(1)), Box::new(int8(9))),
    );
    assert!(build(&between).is_ok());
    let within = Expr::new(
        Ty::Bool,
        ExprSpec::In(Box::new(field(Ty::Int8, "l_tax")), vec![Box::new(int8(1)), Box::new(int8(7))]),
    );
    assert!(build(&within).is_ok());
    let row = Expr::new(Ty::Int8, ExprSpec::Row(vec![]));
    assert!(build(&row).is_ok());
    let bad_part = Expr::new(
        Ty::Bool,
        ExprSpec::In(Box::new(field(Ty::Int8, "l_tax")), vec![Box::new(field(Ty::Int8, "nope"))]),
    );
    assert!(matches!(build(&bad_part), Err(Error::UndefinedColumn)));
}

struct One;

impl NoArgFn for One {
    fn invoke(&self, out: &mut MiniPage, rows: usize) -> Void {
        for row in 0..rows {
            out.put::<i64>(row, 1);
        }
        Ok(())
    }
}

#[test]
fn test_function_call_is_resolved_by_exact_signature() {
    let mut funcs = FuncRegistry::new();
    let body = || FuncBody::new(Ty::Int8, FnKind::Scalar, InvokeMethod::NoArgOp(Box::new(One)));
    funcs.add((FuncSignature::new("one".to_string(), vec![], FnKind::Scalar), body())).unwrap();
    funcs
        .add((FuncSignature::new("id".to_string(), vec![Ty::Int8], FnKind::Scalar), body()))
        .unwrap();
    let types = types();
    let names = names();
    let call = |name: &str, ty: Ty, args: Vec<Box<Expr>>| {
        Expr::new(ty, ExprSpec::Fn(Box::new(FnDecl { signature: name.to_string() }), args))
    };
    let build = |e: &Expr| Interpreter::build(&funcs, &Session, &types, &names, e);

    assert!(matches!(build(&call("one", Ty::Int8, vec![])), Ok(EvalNode::NoArgFn(_))));
    let unary = call("id", Ty::Int8, vec![Box::new(field(Ty::Int8, "l_tax"))]);
    let mut eval = build(&unary).unwrap();
    assert!(matches!(eval, EvalNode::UnaryFn(_)));
    assert!(matches!(eval.evaluate(&lineitem(1)), Err(Error::NotImplemented)));

    // no function of that name, or none for these types of arguments
    assert!(matches!(build(&call("two", Ty::Int8, vec![])), Err(Error::UndefinedOperator)));
    let wrong_arg = call("id", Ty::Int8, vec![Box::new(field(Ty::Int4, "l_linenumber"))]);
    assert!(matches!(build(&wrong_arg), Err(Error::UndefinedOperator)));
    let too_many = call("one", Ty::Int8, vec![Box::new(int8(1))]);
    assert!(matches!(build(&too_many), Err(Error::UndefinedOperator)));
    // the function's result is of another type than the expression declares
    assert!(matches!(build(&call("one", Ty::Int4, vec![])), Err(Error::InvalidExpression)));
}

#[test]
fn test_filter_sets_the_active_rows() {
    let funcs = FuncRegistry::new();
    let types = vec![Ty::Int4, Ty::Int4];
    let names = vec!["a", "b"];
    let lt = comp(CompOp::Lt, field(Ty::Int4, "a"), field(Ty::Int4, "b"));
    let mut eval = Interpreter::build(&funcs, &Session, &types, &names, &lt).unwrap();
    let mut page = Page::new(
        vec![MiniPage::from_vec(&vec![4i32, 3, 2, 1]), MiniPage::from_vec(&vec![1i32, 2, 3, 4])],
        4,
    );
    eval.filter(&mut page).unwrap();
    assert_eq!(page.selection().unwrap(), [2, 3]);
    assert_eq!(page.value_count(), 4);

    // a second filter looks at the active rows only
    let three = Expr::new(Ty::Int4, ExprSpec::Const(Literal::Int4(3)));
    let ge = comp(CompOp::Ge, three, field(Ty::Int4, "a"));
    let mut second = Interpreter::build(&funcs, &Session, &types, &names, &ge).unwrap();
    page.set_selection(vec![3, 0, 1]);
    second.filter(&mut page).unwrap();
    assert_eq!(page.selection().unwrap(), [3, 1]);

    // a comparison yields no column, and no other form filters
    assert!(matches!(eval.evaluate(&page), Err(Error::NotImplemented)));
    let mut plain = Interpreter::build(&funcs, &Session, &types, &names, &field(Ty::Int4, "a"))
        .unwrap();
    assert!(matches!(plain.filter(&mut page), Err(Error::NotImplemented)));
    assert_eq!(page.selection().unwrap(), [3, 1]);
}

#[test]
fn test_comparison_of_different_types_is_refused() {
    let e = comp(CompOp::Eq, field(Ty::Int8, "l_tax"), field(Ty::Int4, "l_linenumber"));
    assert!(matches!(build(&e), Err(Error::InvalidExpression)));
}

#[test]
fn test_stack_discipline() {
    let funcs = FuncRegistry::new();
    let types = types();
    let names = names();
    // an empty walk leaves no evaluator
    let empty = Interpreter::new(&funcs, &Session, &types, &names);
    assert!(matches!(empty.finish(), Err(Error::InternalError)));

    // a form without its parts is refused, and the stack stays as it is
    let mut i = Interpreter::new(&funcs, &Session, &types, &names);
    assert!(matches!(i.Arithm(&Ty::Int8, &ArithmOp::Plus), Err(Error::InternalError)));
    assert!(matches!(i.Not(&Ty::Bool), Err(Error::InternalError)));
    i.Field(&Ty::Int8, "l_tax").unwrap();
    assert!(matches!(i.Cmp(&Ty::Bool, &CompOp::Eq), Err(Error::InternalError)));
    assert!(matches!(i.And(&Ty::Bool), Err(Error::InternalError)));
    i.Const(&Ty::Int8, &Literal::Int8(2)).unwrap();
    i.Arithm(&Ty::Int8, &ArithmOp::Mul).unwrap();
    i.PlusSign(&Ty::Int8).unwrap();
    let mut eval = i.finish().unwrap();
    assert!(matches!(eval, EvalNode::Form(_)));
    assert!(matches!(eval.evaluate(&lineitem(1)), Err(Error::NotImplemented)));

    // two expressions in one walk leave two evaluators
    let mut i = Interpreter::new(&funcs, &Session, &types, &names);
    i.accept(&int8(1)).unwrap();
    i.accept(&int8(2)).unwrap();
    assert!(matches!(i.finish(), Err(Error::InternalError)));

    // the handlers of the unary and the logical forms
    let mut i = Interpreter::new(&funcs, &Session, &types, &names);
    i.Field(&Ty::Int8, "l_tax").unwrap();
    i.IsNull(&Ty::Bool).unwrap();
    i.Field(&Ty::Int8, "l_tax").unwrap();
    i.IsNotNull(&Ty::Bool).unwrap();
    i.Or(&Ty::Bool).unwrap();
    i.Field(&Ty::Int8, "l_tax").unwrap();
    i.MinusSign(&Ty::Int8).unwrap();
    i.Cast(&Ty::Int4, &Ty::Int8, &Ty::Int4).unwrap();
    i.form(Form::Row, &Ty::Int8, 2).unwrap();
    i.Func(&Ty::Int8, &FnDecl { signature: "f".to_string() }, 0).unwrap_err();
    assert!(i.finish().is_ok());
}

#[test]
fn test_processor_stops_at_the_first_failure() {
    let funcs = FuncRegistry::new();
    let types = types();
    let names = names();
    let schema = NamedSchema::new(&names, &types);
    let exprs = vec![
        Box::new(field(Ty::Int8, "l_tax")),
        Box::new(field(Ty::Int4, "l_linenumber")),
        Box::new(field(Ty::Int8, "l_orderkey")),
    ];
    let mut processor = InterpreterProcessor::new(&funcs, &Session, &schema, &exprs).unwrap();
    // the second column of the page under construction is too wide
    let mut builder = PageBuilder::new(&vec![Ty::Int8, Ty::Int8, Ty::Int8]);
    let r = processor.process(&lineitem(2), &mut builder);
    assert!(matches!(r, Err(Error::InternalError)));
    let page = builder.build(2);
    assert_eq!(page.minipage(0).to_vec::<i64>(2), vec![7, 7]);
    assert_eq!(page.minipage(2).to_vec::<i64>(2), vec![0, 0]);

    let bad = vec![Box::new(field(Ty::Int8, "l_tax")), Box::new(field(Ty::Int8, "nope"))];
    assert!(matches!(
        InterpreterProcessor::new(&funcs, &Session, &schema, &bad),
        Err(Error::UndefinedColumn)
    ));
}

#[test]
fn test_find_ids() {
    let types = types();
    let names = names();
    let schema = NamedSchema::new(&names, &types);
    assert_eq!(schema.find_ids(&vec!["l_tax", "l_partkey", "nope", "l_tax"]), vec![1, 7]);
    assert_eq!(schema.find_ids(&vec![]), Vec::<usize>::new());
}
