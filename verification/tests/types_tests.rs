use tajo::common::types::{has_result_data_ty, result_data_ty, Int4Type, Ty, Type};
use tajo::err::{void_ok, Error};
use tajo::sql::types::{Float4, Int4};

#[test]
fn test_sizes() {
    let sizes = [
        (Ty::Bool, 1),
        (Ty::Int1, 1),
        (Ty::Int2, 2),
        (Ty::Int4, 4),
        (Ty::Int8, 8),
        (Ty::Float4, 4),
        (Ty::Float8, 8),
        (Ty::Date, 4),
        (Ty::Time, 8),
        (Ty::Timez, 12),
        (Ty::Timestamp, 8),
        (Ty::Timestampz, 12),
        (Ty::Interval, 12),
        (Ty::Char(127), 127),
        (Ty::Binary(0), 0),
        (Ty::Clob, 24),
        (Ty::Blob, 24),
    ];
    for (ty, size) in sizes.iter() {
        assert!(ty.is_sized());
        assert_eq!(ty.size_of(), *size);
    }
    for ty in [
        Ty::Numeric(10, None),
        Ty::Array(Box::new(Ty::Int4)),
        Ty::Struct(vec![]),
        Ty::Mapping(Box::new(Ty::Int4), Box::new(Ty::Clob)),
    ]
    .iter()
    {
        assert!(!ty.is_sized());
    }
    assert!(Ty::Char(3).is_variable());
    assert!(Ty::Binary(3).is_variable());
    assert!(!Ty::Clob.is_variable());
    assert!(!Ty::Int4.is_variable());
}

#[test]
fn test_names() {
    let names = [
        (Ty::Bool, "bool"),
        (Ty::Int1, "int1"),
        (Ty::Int2, "int2"),
        (Ty::Int4, "int4"),
        (Ty::Int8, "int8"),
        (Ty::Float4, "float4"),
        (Ty::Float8, "float8"),
        (Ty::Numeric(38, Some(0)), "numeric (38, 0)"),
        (Ty::Numeric(9, None), "numeric (9)"),
        (Ty::Date, "date"),
        (Ty::Time, "time"),
        (Ty::Timez, "time with timezone"),
        (Ty::Timestamp, "timestamp"),
        (Ty::Timestampz, "timeztamp with timezone"),
        (Ty::Interval, "interval"),
        (Ty::Char(0), "char(0)"),
        (Ty::Char(10), "char(10)"),
        (Ty::Binary(255), "binary(255)"),
        (Ty::Binary(100), "binary(100)"),
        (Ty::Clob, "clob"),
        (Ty::Blob, "blob"),
        (Ty::Array(Box::new(Ty::Array(Box::new(Ty::Int4)))), "array<array<int4>>"),
        (Ty::Mapping(Box::new(Ty::Char(7)), Box::new(Ty::Blob)), "map<char(7),blob>"),
        (Ty::Struct(vec![]), "struct()"),
        (Ty::Struct(vec![Ty::Int4]), "struct(int4)"),
        (
            Ty::Struct(vec![Ty::Int4, Ty::Struct(vec![Ty::Bool, Ty::Char(19)]), Ty::Clob]),
            "struct(int4, struct(bool, char(19)), clob)",
        ),
    ];
    for (ty, name) in names.iter() {
        assert_eq!(ty.to_string(), *name);
    }
}

#[test]
fn test_same_and_clone() {
    let nested = Ty::Struct(vec![
        Ty::Int4,
        Ty::Mapping(Box::new(Ty::Char(3)), Box::new(Ty::Array(Box::new(Ty::Numeric(5, Some(2)))))),
    ]);
    assert!(nested.same(&nested.clone()));
    let other = Ty::Struct(vec![
        Ty::Int4,
        Ty::Mapping(Box::new(Ty::Char(3)), Box::new(Ty::Array(Box::new(Ty::Numeric(5, Some(3)))))),
    ]);
    assert!(!nested.same(&other));
    assert!(!Ty::Struct(vec![Ty::Int4]).same(&Ty::Struct(vec![Ty::Int4, Ty::Int4])));
    assert!(!Ty::Struct(vec![]).same(&Ty::Array(Box::new(Ty::Int4))));
    assert!(!Ty::Numeric(5, None).same(&Ty::Numeric(5, Some(0))));
    assert!(!Ty::Char(1).same(&Ty::Binary(1)));
    assert!(!Ty::Time.same(&Ty::Timez));
    assert!(Ty::Timestampz.same(&Ty::Timestampz));
}

#[test]
fn test_result_of_an_operator() {
    let numbers = [Ty::Int1, Ty::Int2, Ty::Int4, Ty::Int8, Ty::Float4, Ty::Float8];
    for (i, l) in numbers.iter().enumerate() {
        for (j, r) in numbers.iter().enumerate() {
            assert!(has_result_data_ty(l, r));
            let wider = if j >= i { r } else { l };
            assert!(result_data_ty(l, r).same(wider));
        }
    }
    for ty in [Ty::Bool, Ty::Clob, Ty::Blob].iter() {
        assert!(result_data_ty(ty, ty).same(ty));
    }
    let undefined = [
        (Ty::Bool, Ty::Int4),
        (Ty::Int4, Ty::Bool),
        (Ty::Clob, Ty::Blob),
        (Ty::Date, Ty::Date),
        (Ty::Char(1), Ty::Char(1)),
        (Ty::Numeric(1, None), Ty::Int4),
        (Ty::Interval, Ty::Interval),
        (Ty::Array(Box::new(Ty::Int4)), Ty::Array(Box::new(Ty::Int4))),
    ];
    for (l, r) in undefined.iter() {
        assert!(!has_result_data_ty(l, r));
    }
}

#[test]
fn test_type_descriptors() {
    let int4 = Int4::new();
    assert_eq!(int4.type_id().name, "int4");
    assert_eq!(int4.display_name(), "int4");
    assert!(int4.is_comparable());
    assert!(int4.is_orderable());
    assert!(int4.type_params().is_empty());
    assert_eq!(int4.create_minipage().width(), 4);
    let float4 = Float4::new();
    assert_eq!(float4.type_id().name, "float4");
    assert_eq!(float4.display_name(), "float4");
    assert_eq!(float4.create_minipage().width(), 4);
    assert_eq!(Int4Type.display_name(), "int4");
    assert_eq!(Int4Type.type_id().name, "int4");
    assert!(Int4Type.is_comparable() && Int4Type.is_orderable());
    assert!(Int4Type.type_params().is_empty());
    assert!(Int4Type.create_minipage().as_bytes().iter().all(|b| *b == 0));
}

#[test]
fn test_errors() {
    assert!(void_ok().is_ok());
    let e = Error::UndefinedDataType("x".to_string());
    match e.clone() {
        Error::UndefinedDataType(name) => assert_eq!(name, "x"),
        _ => panic!("a copy is of the same kind"),
    }
    assert!(matches!(Error::DuplicatedTypeId.clone(), Error::DuplicatedTypeId));
}
