//! Data types of columns: a closed set of tags, and a tag together with the
//! attributes that some tags need.

use vstd::prelude::*;
use crate::constant::TEXT_SIZE;
use crate::err::{Error, TResult};

verus! {

/// Tag of a data type.
#[derive(Clone, Copy, PartialEq, Eq, Debug, Structural)]
pub enum Ty {
    Bool,
    Int1,
    Int2,
    Int4,
    Int8,
    Float4,
    Float8,
    Date,
    Time,
    Timestamp,
    Interval,
    Char,
    Varchar,
    Text,
    Blob,
}

/// Something that has a type tag.
pub trait HasTy {
    /// The tag.
    spec fn spec_ty(&self) -> Ty;

    /// The tag.
    fn ty(&self) -> (t: Ty)
        ensures
            t == self.spec_ty(),
    ;
}

/// Something that has a data type.
pub trait HasDataTy {
    /// The data type.
    spec fn spec_data_ty(&self) -> DataType;

    /// The data type.
    fn data_ty(&self) -> (d: &DataType)
        ensures
            *d == self.spec_data_ty(),
    ;
}

/// Data domain of a field.
#[derive(Clone, Copy, PartialEq, Eq, Debug, Structural)]
pub struct DataType {
    pub ty: Ty,
    /// Length, for CHAR and VARCHAR.
    pub len: u32,
    /// Precision, for numeric or decimal.
    pub precision: u8,
    /// Scale, for numeric or decimal.
    pub scale: u8,
}

/// A data type's name under which the engine uses it.
pub type DataTy = DataType;

/// Bytes that one value of the type takes in a column.
pub open spec fn size_of_spec(data_type: DataType) -> u32 {
    match data_type.ty {
        Ty::Bool => 1,
        Ty::Int1 => 1,
        Ty::Int2 => 2,
        Ty::Int4 => 4,
        Ty::Int8 => 8,
        Ty::Float4 => 4,
        Ty::Float8 => 8,
        Ty::Date => 4,
        Ty::Time => 8,
        Ty::Timestamp => 8,
        Ty::Interval => 12,
        Ty::Char => data_type.len,
        Ty::Text => TEXT_SIZE as u32,
        Ty::Varchar | Ty::Blob => 12,
    }
}

/// Place of a numeric tag in the order in which arithmetic widens its
/// operands; `None` for a tag that is not numeric.
pub open spec fn numeric_rank(ty: Ty) -> Option<nat> {
    match ty {
        Ty::Int1 => Some(1),
        Ty::Int2 => Some(2),
        Ty::Int4 => Some(3),
        Ty::Int8 => Some(4),
        Ty::Float4 => Some(5),
        Ty::Float8 => Some(6),
        _ => None,
    }
}

/// The type of the result of an operator on operands of the types `lhs` and
/// `rhs`, where there is one: of two numeric types the wider one, the right
/// one where both are equally wide; of two truth values a truth value; of two
/// texts the right one.
pub open spec fn result_data_ty_spec(lhs: DataType, rhs: DataType) -> Option<DataType> {
    if numeric_rank(lhs.ty) is Some && numeric_rank(rhs.ty) is Some {
        if numeric_rank(rhs.ty)->0 >= numeric_rank(lhs.ty)->0 {
            Some(rhs)
        } else {
            Some(lhs)
        }
    } else if lhs.ty is Bool && rhs.ty is Bool {
        Some(DataType { ty: Ty::Bool, len: 0, precision: 0, scale: 0 })
    } else if lhs.ty is Text && rhs.ty is Text {
        Some(rhs)
    } else {
        None
    }
}

impl DataType {
    /// The type with the tag `ty` and no attributes.
    pub fn new(ty: Ty) -> (d: DataType)
        ensures
            d == (DataType { ty, len: 0, precision: 0, scale: 0 }),
    {
        DataType { ty, len: 0, precision: 0, scale: 0 }
    }

    /// The type with the tag `ty` and the length `len`.
    pub fn new_vartype(ty: Ty, len: u32) -> (d: DataType)
        ensures
            d == (DataType { ty, len, precision: 0, scale: 0 }),
    {
        DataType { ty, len, precision: 0, scale: 0 }
    }

    /// Bytes that one value of this type takes in a column.
    pub fn bytes_len(&self) -> (n: u32)
        ensures
            n == size_of_spec(*self),
    {
        DataType::size_of(self)
    }

    /// Bytes that one value of the type takes in a column.
    #[inline(always)]
    pub fn size_of(data_type: &DataType) -> (n: u32)
        ensures
            n == size_of_spec(*data_type),
    {
        match data_type.ty {
            Ty::Bool => 1,
            Ty::Int1 => 1,
            Ty::Int2 => 2,
            Ty::Int4 => 4,
            Ty::Int8 => 8,
            Ty::Float4 => 4,
            Ty::Float8 => 8,
            Ty::Date => 4,
            Ty::Time => 8,
            Ty::Timestamp => 8,
            Ty::Interval => 12,
            Ty::Char => data_type.len,
            Ty::Text => TEXT_SIZE as u32,
            Ty::Varchar | Ty::Blob => 12,
        }
    }

    /// Whether the type has a length attribute.
    pub fn has_length(data_type: &DataType) -> (b: bool)
        ensures
            b == (data_type.ty is Char || data_type.ty is Varchar || data_type.ty is Blob),
    {
        match data_type.ty {
            Ty::Char | Ty::Varchar | Ty::Blob => true,
            _ => false,
        }
    }

    /// Whether values of the type differ in length.
    pub fn is_variable(data_type: &DataType) -> (b: bool)
        ensures
            b == (data_type.ty is Varchar || data_type.ty is Blob),
    {
        match data_type.ty {
            Ty::Varchar | Ty::Blob => true,
            _ => false,
        }
    }
}

impl HasDataTy for DataType {
    open spec fn spec_data_ty(&self) -> DataType {
        *self
    }

    #[inline]
    fn data_ty(&self) -> (d: &DataType) {
        self
    }
}

impl HasTy for DataType {
    open spec fn spec_ty(&self) -> Ty {
        self.ty
    }

    #[inline]
    fn ty(&self) -> (t: Ty) {
        self.ty
    }
}

/// Place of a numeric tag in the widening order, 0 for any other tag.
fn rank_of(ty: Ty) -> (r: u8)
    ensures
        match numeric_rank(ty) {
            Some(n) => r == n,
            None => r == 0,
        },
{
    match ty {
        Ty::Int1 => 1,
        Ty::Int2 => 2,
        Ty::Int4 => 3,
        Ty::Int8 => 4,
        Ty::Float4 => 5,
        Ty::Float8 => 6,
        _ => 0,
    }
}

/// Determines the data type of the result of an operator from the data types
/// of its two operands. Fails with `UndefinedOperator` where the operator is
/// not defined on them.
pub fn result_data_ty(lhs_ty: &DataType, rhs_ty: &DataType) -> (r: TResult<DataType>)
    ensures
        match result_data_ty_spec(*lhs_ty, *rhs_ty) {
            Some(d) => r == Ok::<DataType, Error>(d),
            None => r == Err::<DataType, Error>(Error::UndefinedOperator),
        },
{
    let l: u8 = rank_of(lhs_ty.ty);
    let r: u8 = rank_of(rhs_ty.ty);
    if l > 0 && r > 0 {
        if r >= l {
            Ok(*rhs_ty)
        } else {
            Ok(*lhs_ty)
        }
    } else {
        match (lhs_ty.ty, rhs_ty.ty) {
            (Ty::Bool, Ty::Bool) => Ok(DataType::new(Ty::Bool)),
            (Ty::Text, Ty::Text) => Ok(*rhs_ty),
            _ => Err(Error::UndefinedOperator),
        }
    }
}

} // verus!
