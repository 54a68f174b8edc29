use tajo::schema::{Column, Schema};
use tajo::types::{result_data_ty, DataType, HasTy, Ty};
use tajo::err::Error;

#[test]
fn test_column() {
    let type_ = DataType::new(Ty::Int2);
    let c1 = Column { name: "ABC".to_string(), data_ty: type_ };
    assert_eq!(c1.name, "ABC".to_string());
    assert_eq!(c1.data_ty.ty(), Ty::Int2);
}

#[test]
fn test_column_constructors() {
    let c = Column::new("a", Ty::Int4);
    assert_eq!(c.name, "a");
    assert_eq!(c.data_ty, DataType { ty: Ty::Int4, len: 0, precision: 0, scale: 0 });
    let d = Column::new_with_len("b", Ty::Char, 7);
    assert_eq!(d.data_ty, DataType { ty: Ty::Char, len: 7, precision: 0, scale: 0 });
    assert_eq!(d.data_ty.bytes_len(), 7);
}

#[test]
fn test_schema_lookup_finds_first_of_equal_names() {
    let mut s = Schema::new(vec![Column::new("a", Ty::Int4), Column::new("b", Ty::Int8)]);
    s.add(Column::new("b", Ty::Text));
    s.add_directly("c".to_string(), Ty::Bool);
    assert_eq!(s.size(), 4);
    assert_eq!(s.column_id("a"), Some(0));
    assert_eq!(s.column_id("b"), Some(1));
    assert_eq!(s.column_id("c"), Some(3));
    assert_eq!(s.column_id("d"), None);
    assert_eq!(s.column(2).data_ty.ty, Ty::Text);
    assert_eq!(s.get(3).name, "c");
    assert_eq!(s.columns().len(), 4);
    assert_eq!(s.get_by_name("b".to_string()).unwrap().data_ty.ty, Ty::Int8);
    assert!(s.get_by_name("zz".to_string()).is_none());
}

#[test]
fn test_data_type_sizes() {
    let sizes = [
        (Ty::Bool, 1),
        (Ty::Int1, 1),
        (Ty::Int2, 2),
        (Ty::Int4, 4),
        (Ty::Int8, 8),
        (Ty::Float4, 4),
        (Ty::Float8, 8),
        (Ty::Date, 4),
        (Ty::Time, 8),
        (Ty::Timestamp, 8),
        (Ty::Interval, 12),
        (Ty::Text, 24),
        (Ty::Varchar, 12),
        (Ty::Blob, 12),
    ];
    for (ty, size) in sizes.iter() {
        assert_eq!(DataType::size_of(&DataType::new(*ty)), *size);
    }
    assert_eq!(DataType::new_vartype(Ty::Char, 9).bytes_len(), 9);
    assert!(DataType::has_length(&DataType::new(Ty::Char)));
    assert!(DataType::has_length(&DataType::new(Ty::Varchar)));
    assert!(DataType::has_length(&DataType::new(Ty::Blob)));
    assert!(!DataType::has_length(&DataType::new(Ty::Text)));
    assert!(DataType::is_variable(&DataType::new(Ty::Varchar)));
    assert!(DataType::is_variable(&DataType::new(Ty::Blob)));
    assert!(!DataType::is_variable(&DataType::new(Ty::Char)));
}

#[test]
fn test_result_data_ty_widens() {
    let i2 = DataType::new(Ty::Int2);
    let i8_ = DataType::new(Ty::Int8);
    let f4 = DataType::new(Ty::Float4);
    assert_eq!(result_data_ty(&i2, &i8_).unwrap(), i8_);
    assert_eq!(result_data_ty(&i8_, &i2).unwrap(), i8_);
    assert_eq!(result_data_ty(&i8_, &f4).unwrap(), f4);
    assert_eq!(result_data_ty(&f4, &i2).unwrap(), f4);
    let b = DataType::new(Ty::Bool);
    assert_eq!(result_data_ty(&b, &b).unwrap(), b);
    let t = DataType::new_vartype(Ty::Text, 3);
    assert_eq!(result_data_ty(&DataType::new(Ty::Text), &t).unwrap(), t);
}

#[test]
fn test_result_data_ty_undefined() {
    let b = DataType::new(Ty::Bool);
    let i4 = DataType::new(Ty::Int4);
    let d = DataType::new(Ty::Date);
    assert!(matches!(result_data_ty(&b, &i4), Err(Error::UndefinedOperator)));
    assert!(matches!(result_data_ty(&d, &d), Err(Error::UndefinedOperator)));
    assert!(matches!(result_data_ty(&i4, &DataType::new(Ty::Text)), Err(Error::UndefinedOperator)));
}
