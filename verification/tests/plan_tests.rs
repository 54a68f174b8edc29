use tajo::common::types::Ty;
use tajo::err::TResult;
use tajo::exec::driver::{Driver, DriverContext, DriverFactory, TaskSource};
use tajo::exec::{Executor, ExecutorFactory};
use tajo::plan::expr::{
    accept_by_default, walk_all, walk_expr, ArithmOp, CompOp, Expr, ExprSpec, FnDecl, Literal,
    SimpleVisitor, Visitor,
};
use tajo::rows::minipage::MiniPage;
use tajo::rows::page::Page;
use std::cell::RefCell;

/// Notes the fields and the kinds of the expressions in the order of the
/// walk, and walks on into every part.
struct Trace {
    seen: Vec<String>,
}

impl Visitor for Trace {
    fn visit_not(&mut self, child: &Expr) {
        self.seen.push("not".to_string());
        walk_expr(self, child);
    }
    fn visit_is_null(&mut self, child: &Expr, not: bool) {
        self.seen.push(format!("is_null {}", not));
        walk_expr(self, child);
    }
    fn visit_sign(&mut self, child: &Expr, not: bool) {
        self.seen.push(format!("sign {}", not));
        walk_expr(self, child);
    }
    fn visit_cast(&mut self, expr: &Expr, from: &Ty, to: &Ty) {
        self.seen.push(format!("cast {} {}", from.to_string(), to.to_string()));
        walk_expr(self, expr);
    }
    fn visit_and(&mut self, lhs: &Expr, rhs: &Expr) {
        self.seen.push("and".to_string());
        walk_expr(self, lhs);
        walk_expr(self, rhs);
    }
    fn visit_or(&mut self, lhs: &Expr, rhs: &Expr) {
        self.seen.push("or".to_string());
        walk_expr(self, lhs);
        walk_expr(self, rhs);
    }
    fn visit_comp(&mut self, op: &CompOp, lhs: &Expr, rhs: &Expr) {
        self.seen.push(format!("comp {:?}", op));
        walk_expr(self, lhs);
        walk_expr(self, rhs);
    }
    fn visit_arithm(&mut self, op: &ArithmOp, lhs: &Expr, rhs: &Expr) {
        self.seen.push(format!("arithm {:?}", op));
        walk_expr(self, lhs);
        walk_expr(self, rhs);
    }
    fn visit_concat(&mut self, lhs: &Expr, rhs: &Expr) {
        self.seen.push("concat".to_string());
        walk_expr(self, lhs);
        walk_expr(self, rhs);
    }
    fn visit_fn(&mut self, fd: &FnDecl, args: &Vec<Box<Expr>>) {
        self.seen.push(format!("fn {}", fd.signature));
        walk_all(self, args);
    }
    fn visit_like(&mut self, pat: &Expr, pred: &Expr, not: bool) {
        self.seen.push(format!("like {}", not));
        walk_expr(self, pat);
        walk_expr(self, pred);
    }
    fn visit_similarto(&mut self, pat: &Expr, pred: &Expr, not: bool) {
        self.seen.push(format!("similarto {}", not));
        walk_expr(self, pat);
        walk_expr(self, pred);
    }
    fn visit_regexmatch(&mut self, pat: &Expr, pred: &Expr, not: bool) {
        self.seen.push(format!("regexmatch {}", not));
        walk_expr(self, pat);
        walk_expr(self, pred);
    }
    fn visit_between(&mut self, pred: &Expr, begin: &Expr, end: &Expr) {
        self.seen.push("between".to_string());
        walk_expr(self, pred);
        walk_expr(self, begin);
        walk_expr(self, end);
    }
    fn visit_in(&mut self, pred: &Expr, values: &Vec<Box<Expr>>) {
        self.seen.push("in".to_string());
        walk_expr(self, pred);
        self.visit_row(values);
    }
    fn visit_case(&mut self, ifconds: &Vec<Box<Expr>>, else_result: &Expr) {
        self.seen.push("case".to_string());
        walk_all(self, ifconds);
        walk_expr(self, else_result);
    }
    fn visit_if_then(&mut self, ifcond: &Expr, result: &Expr) {
        self.seen.push("if_then".to_string());
        walk_expr(self, ifcond);
        walk_expr(self, result);
    }
    fn visit_row(&mut self, values: &Vec<Box<Expr>>) {
        self.seen.push("row".to_string());
        walk_all(self, values);
    }
    fn visit_field(&mut self, field: &String) {
        self.seen.push(format!("field {}", field));
    }
    fn visit_const(&mut self, literal: &Literal) {
        self.seen.push(format!("const {:?}", literal));
    }
}

fn f(name: &str) -> Box<Expr> {
    Box::new(Expr::new(Ty::Int4, ExprSpec::Field(name.to_string())))
}

fn c(v: i32) -> Box<Expr> {
    Box::new(Expr::new(Ty::Int4, ExprSpec::Const(Literal::Int4(v))))
}

fn e(ty: Ty, spec: ExprSpec) -> Box<Expr> {
    Box::new(Expr::new(ty, spec))
}

fn walked(expr: &Expr) -> Vec<String> {
    let mut trace = Trace { seen: Vec::new() };
    walk_expr(&mut trace, expr);
    trace.seen
}

#[test]
fn test_walk_tells_of_each_kind() {
    let cases: Vec<(Box<Expr>, Vec<&str>)> = vec![
        (e(Ty::Bool, ExprSpec::Not(f("a"))), vec!["not", "field a"]),
        (e(Ty::Bool, ExprSpec::IsNull(f("a"), false)), vec!["is_null false", "field a"]),
        (e(Ty::Int4, ExprSpec::Sign(c(1), true)), vec!["sign true", "const Int4(1)"]),
        (
            e(Ty::Int8, ExprSpec::Cast(f("a"), Box::new(Ty::Int4), Box::new(Ty::Int8))),
            vec!["cast int4 int8", "field a"],
        ),
        (e(Ty::Bool, ExprSpec::And(f("a"), f("b"))), vec!["and", "field a", "field b"]),
        (e(Ty::Bool, ExprSpec::Or(f("a"), f("b"))), vec!["or", "field a", "field b"]),
        (
            e(Ty::Bool, ExprSpec::Comp(CompOp::Ge, f("a"), c(2))),
            vec!["comp Ge", "field a", "const Int4(2)"],
        ),
        (
            e(Ty::Int4, ExprSpec::Arithm(ArithmOp::Rem, f("a"), c(2))),
            vec!["arithm Rem", "field a", "const Int4(2)"],
        ),
        (e(Ty::Clob, ExprSpec::Concat(f("a"), f("b"))), vec!["concat", "field a", "field b"]),
        (
            e(
                Ty::Int4,
                ExprSpec::Fn(Box::new(FnDecl { signature: "g".to_string() }), vec![f("a"), c(3)]),
            ),
            vec!["fn g", "field a", "const Int4(3)"],
        ),
        (e(Ty::Bool, ExprSpec::Like(f("p"), f("v"), true)), vec!["like true", "field p", "field v"]),
        (
            e(Ty::Bool, ExprSpec::SimilarTo(f("p"), f("v"), false)),
            vec!["similarto false", "field p", "field v"],
        ),
        (
            e(Ty::Bool, ExprSpec::RegexMatch(f("p"), f("v"), false)),
            vec!["regexmatch false", "field p", "field v"],
        ),
        (
            e(Ty::Bool, ExprSpec::Between(f("a"), c(1), c(9))),
            vec!["between", "field a", "const Int4(1)", "const Int4(9)"],
        ),
        (
            e(Ty::Bool, ExprSpec::In(f("a"), vec![c(1), c(2)])),
            vec!["in", "field a", "row", "const Int4(1)", "const Int4(2)"],
        ),
        (
            e(Ty::Int4, ExprSpec::Case(vec![e(Ty::Int4, ExprSpec::IfThen(f("a"), c(1)))], c(0))),
            vec!["case", "if_then", "field a", "const Int4(1)", "const Int4(0)"],
        ),
        (e(Ty::Int4, ExprSpec::Row(vec![c(1), f("z")])), vec!["row", "const Int4(1)", "field z"]),
        (f("only"), vec!["field only"]),
        (c(-4), vec!["const Int4(-4)"]),
    ];
    for (expr, seen) in cases.iter() {
        assert_eq!(walked(expr), *seen);
        // a copy walks alike
        assert_eq!(walked(&(**expr).clone()), *seen);
    }
}

#[test]
fn test_expr_accessors() {
    let x = Expr::new(Ty::Char(3), ExprSpec::Const(Literal::Char("abc".to_string())));
    assert!(x.ty().same(&Ty::Char(3)));
    assert!(matches!(x.spec(), ExprSpec::Const(Literal::Char(s)) if s == "abc"));
    let blob = Literal::Blob(vec![1, 2]);
    assert!(matches!(blob.clone(), Literal::Blob(b) if b == vec![1, 2]));
    assert_eq!(FnDecl { signature: "s".to_string() }.clone().signature, "s");
}

struct Count {
    consts: RefCell<usize>,
}

impl SimpleVisitor for Count {
    fn accept(&self, op: &Expr) {
        if let ExprSpec::Const(_) = op.spec() {
            *self.consts.borrow_mut() += 1;
        }
        accept_by_default(self, op);
    }
}

#[test]
fn test_simple_visitor() {
    let tree = e(Ty::Bool, ExprSpec::And(e(Ty::Bool, ExprSpec::And(c(1), c(2))), c(3)));
    let count = Count { consts: RefCell::new(0) };
    count.accept(&tree);
    assert_eq!(*count.consts.borrow(), 3);
}

/// Hands on one page of two rows, and then a page without rows.
struct Once {
    page: Page,
    end: Page,
    left: usize,
}

impl Executor for Once {
    fn init(&mut self) -> Result<(), tajo::err::Error> {
        Ok(())
    }
    fn need_input(&self) -> bool {
        false
    }
    fn add_input(&mut self, _page: &Page) -> Result<(), tajo::err::Error> {
        Ok(())
    }
    fn next(&mut self) -> TResult<&Page> {
        if self.left > 0 {
            self.left -= 1;
            Ok(&self.page)
        } else {
            Ok(&self.end)
        }
    }
    fn close(&mut self) -> Result<(), tajo::err::Error> {
        Ok(())
    }
}

struct OnceFactory {
    types: Vec<Ty>,
    can: bool,
}

impl ExecutorFactory for OnceFactory {
    type Exec = Once;

    fn create(&self, _ctx: &DriverContext) -> Option<Once> {
        if self.can {
            Some(Once {
                page: Page::new(vec![MiniPage::from_vec(&vec![1i32, 2])], 2),
                end: Page::new(vec![MiniPage::new(4)], 0),
                left: 1,
            })
        } else {
            None
        }
    }

    fn types(&self) -> &Vec<Ty> {
        &self.types
    }
}

#[test]
fn test_driver_pulls_pages_until_the_end() {
    let factory = DriverFactory::new(true, false, OnceFactory { types: vec![Ty::Int4], can: true });
    assert!(factory.is_input);
    assert!(!factory.is_output);
    assert!(factory.source_ids.is_empty());
    assert_eq!(factory.factory.types().len(), 1);
    let ctx = DriverContext;
    let mut driver: Driver<Once> = factory.create_driver(&ctx).unwrap();
    driver.update_source(TaskSource);
    let mut rows = 0;
    loop {
        let page = driver.process().unwrap();
        if page.value_count() == 0 {
            break;
        }
        rows += page.value_count();
    }
    assert_eq!(rows, 2);
    driver.close();

    let none = DriverFactory::new(false, true, OnceFactory { types: vec![], can: false });
    assert!(none.create_driver(&ctx).is_none());
}
