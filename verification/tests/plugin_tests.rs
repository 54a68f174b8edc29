use tajo::common::func::{FnKind, FuncBody, FuncSignature, InvokeMethod, NoArgFn};
use tajo::common::plugin::{
    register_noarg_fn, FuncRegistry, Plugin, PluginManager, ScalarType, TypeRegistry,
};
use tajo::common::types::Ty;
use tajo::err::{Error, Void};
use tajo::rows::minipage::MiniPage;
use tajo::sql::types::{parse_type_str, SqlTypes};
use tajo::sql::{load_funcs, load_types, SQLPackage};

fn test() -> i32 {
    // nothing to do
    0
}

struct TestFn;

impl NoArgFn for TestFn {
    fn invoke(&self, out: &mut MiniPage, rows: usize) -> Void {
        for row in 0..rows {
            out.put::<i32>(row, test());
        }
        Ok(())
    }
}

struct TestPackage {
    name: &'static str,
}

impl Plugin<ScalarType> for TestPackage {
    fn name(&self) -> &str {
        self.name
    }

    fn load(&self, mgr: &mut PluginManager<ScalarType>) -> Void {
        register_noarg_fn(mgr, "test", vec![], "i32", Box::new(TestFn))
    }
}

fn manager_with_i32() -> PluginManager<ScalarType> {
    let mut pkg_mgr: PluginManager<ScalarType> = PluginManager::new();
    pkg_mgr.register_ty(("i32", ScalarType::new(Ty::Int4))).unwrap();
    pkg_mgr
}

fn sign_of_test() -> FuncSignature {
    FuncSignature::new("test".to_string(), vec![], FnKind::Scalar)
}

#[test]
pub fn test_add_func() {
    let mut pkg_mgr = manager_with_i32();
    let pkg = TestPackage { name: "TEST_PACKAGE" };
    assert_eq!(pkg.name(), "TEST_PACKAGE");
    pkg.load(&mut pkg_mgr).unwrap();
    assert!(pkg_mgr.fn_registry().find(&sign_of_test()).is_some());
}

#[test]
#[should_panic]
pub fn test_duplicate_func() {
    let mut pkg_mgr = manager_with_i32();
    TestPackage { name: "TEST_PACKAGE" }.load(&mut pkg_mgr).unwrap();
    TestPackage { name: "TEST_PACKAGE" }.load(&mut pkg_mgr).unwrap();
}

#[test]
pub fn test_add_func_diff_ns() {
    let mut pkg_mgr = manager_with_i32();
    TestPackage { name: "TEST_PACKAGE" }.load(&mut pkg_mgr).unwrap();
    // a signature is the same whatever package brings it: the second is refused
    let second = TestPackage { name: "ANOTHER_PACKAGE" }.load(&mut pkg_mgr);
    assert!(matches!(second, Err(Error::DuplicatedFuncSign)));
    assert!(pkg_mgr.fn_registry().find(&sign_of_test()).is_some());
}

#[test]
fn test_registered_function_can_be_called() {
    let mut pkg_mgr = manager_with_i32();
    TestPackage { name: "TEST_PACKAGE" }.load(&mut pkg_mgr).unwrap();
    let body = pkg_mgr.find_func("test", &vec![]).unwrap();
    assert!(body.ret_type().same(&Ty::Int4));
    assert_eq!(body.fn_kind(), FnKind::Scalar);
    let mut out = MiniPage::new(4);
    match body.method() {
        InvokeMethod::NoArgOp(f) => f.invoke(&mut out, 3).unwrap(),
        _ => panic!("a function of no argument was registered"),
    }
    assert_eq!(out.to_vec::<i32>(3), vec![0, 0, 0]);
}

#[test]
fn test_duplicate_type_is_refused_and_nothing_changes() {
    let mut reg: TypeRegistry<ScalarType> = TypeRegistry::new();
    assert!(reg.add(("int4", ScalarType::new(Ty::Int4))).is_ok());
    assert!(reg.add(("bool", ScalarType::new(Ty::Bool))).is_ok());
    let again = reg.add(("int4", ScalarType::new(Ty::Int8)));
    assert!(matches!(again, Err(Error::DuplicatedTypeId)));
    assert_eq!(reg.all(), vec!["bool", "int4"]);
    assert!(reg.get("int4").unwrap().same(&Ty::Int4));
}

#[test]
fn test_type_names_come_in_their_order() {
    let mut reg: TypeRegistry<ScalarType> = TypeRegistry::new();
    for name in ["int8", "bool", "text", "int4", "b", "int", ""].iter() {
        reg.add((*name, ScalarType::new(Ty::Bool))).unwrap();
    }
    assert_eq!(reg.all(), vec!["", "b", "bool", "int", "int4", "int8", "text"]);
}

#[test]
fn test_undefined_type() {
    let reg: TypeRegistry<ScalarType> = TypeRegistry::new();
    match reg.get("int4") {
        Err(Error::UndefinedDataType(name)) => assert_eq!(name, "int4"),
        _ => panic!("no type is registered"),
    }
}

#[test]
fn test_duplicate_function_is_refused_and_nothing_changes() {
    let mut reg = FuncRegistry::new();
    let body = || FuncBody::new(Ty::Int4, FnKind::Scalar, InvokeMethod::NoArgOp(Box::new(TestFn)));
    assert!(reg.add((sign_of_test(), body())).is_ok());
    let other = FuncSignature::new("test".to_string(), vec![Ty::Int4], FnKind::Scalar);
    assert!(reg.add((other, body())).is_ok());
    let again = FuncBody::new(Ty::Int8, FnKind::Scalar, InvokeMethod::NoArgOp(Box::new(TestFn)));
    assert!(matches!(reg.add((sign_of_test(), again)), Err(Error::DuplicatedFuncSign)));
    assert!(reg.find(&sign_of_test()).unwrap().ret_type().same(&Ty::Int4));
    assert_eq!(reg.index_of("test", &vec![Ty::Int4], FnKind::Scalar), Some(1));
}

#[test]
fn test_find_is_exact() {
    let mut reg = FuncRegistry::new();
    let body = FuncBody::new(Ty::Int4, FnKind::Scalar, InvokeMethod::NoArgOp(Box::new(TestFn)));
    let sign = FuncSignature::new("f".to_string(), vec![Ty::Int4, Ty::Char(3)], FnKind::Scalar);
    reg.add((sign, body)).unwrap();
    assert!(reg.find_by("f", &vec![Ty::Int4, Ty::Char(3)], FnKind::Scalar).is_some());
    assert!(reg.find_by("f", &vec![Ty::Int4, Ty::Char(4)], FnKind::Scalar).is_none());
    assert!(reg.find_by("f", &vec![Ty::Int8, Ty::Char(3)], FnKind::Scalar).is_none());
    assert!(reg.find_by("f", &vec![Ty::Int4], FnKind::Scalar).is_none());
    assert!(reg.find_by("f", &vec![Ty::Int4, Ty::Char(3)], FnKind::Aggregation).is_none());
    assert!(reg.find_by("g", &vec![Ty::Int4, Ty::Char(3)], FnKind::Scalar).is_none());
}

#[test]
fn test_register_noarg_fn_with_unknown_types() {
    let mut pkg_mgr = manager_with_i32();
    let r = register_noarg_fn(&mut pkg_mgr, "f", vec!["i32", "i64"], "i32", Box::new(TestFn));
    match r {
        Err(Error::UndefinedDataType(name)) => assert_eq!(name, "i64"),
        _ => panic!("the second argument type is not registered"),
    }
    let r = register_noarg_fn(&mut pkg_mgr, "f", vec!["i32"], "f64", Box::new(TestFn));
    match r {
        Err(Error::UndefinedDataType(name)) => assert_eq!(name, "f64"),
        _ => panic!("the result type is not registered"),
    }
    assert!(pkg_mgr.find_func("f", &vec![Ty::Int4]).is_none());
    register_noarg_fn(&mut pkg_mgr, "f", vec!["i32"], "i32", Box::new(TestFn)).unwrap();
    assert!(pkg_mgr.find_func("f", &vec![Ty::Int4]).is_some());
}

#[test]
pub fn test_data_source() {
    let mut ctx: PluginManager<SqlTypes> = PluginManager::new();
    SQLPackage.load(&mut ctx).unwrap();

    assert!(ctx.get_type("int4").is_ok());

    assert_eq!(1, ctx.ty_registry().all().len());
    assert_eq!(ctx.all_types(), vec!["int4"]);
}

#[test]
fn test_sql_package() {
    assert_eq!(Plugin::<SqlTypes>::name(&SQLPackage), "sql");
    assert_eq!(load_types().len(), 1);
    assert_eq!(load_types()[0].0, "int4");
    assert_eq!(load_funcs().len(), 0);
    let mut ctx: PluginManager<SqlTypes> = PluginManager::new();
    SQLPackage.load(&mut ctx).unwrap();
    assert!(matches!(SQLPackage.load(&mut ctx), Err(Error::DuplicatedTypeId)));
    assert!(ctx.get_type("int4").unwrap().same(&Ty::Int4));
    // "float4" is a name that the factory knows, but it is not registered
    assert!(matches!(ctx.get_type("float4"), Err(Error::UndefinedDataType(_))));
}

#[test]
fn test_parse_type_str() {
    assert!(parse_type_str("int4").unwrap().same(&Ty::Int4));
    assert!(parse_type_str("float4").unwrap().same(&Ty::Float4));
    match parse_type_str("int5") {
        Err(Error::UndefinedDataType(name)) => assert_eq!(name, "int5"),
        _ => panic!("int5 names no type"),
    }
}
