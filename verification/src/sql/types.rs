//! The SQL types.

use vstd::prelude::*;
use crate::common::plugin::TypeFactory;
use crate::common::types::{Ty, TyModel, Type, TypeId};
use crate::err::{Error, TResult};
use crate::rows::minipage::MiniPage;
use crate::text::str_eq;

verus! {

pub const BOOL_STR: &'static str = "bool";

pub const INT1_STR: &'static str = "int1";

pub const INT2_STR: &'static str = "int2";

pub const INT4_STR: &'static str = "int4";

pub const INT8_STR: &'static str = "int8";

pub const FLOAT4_STR: &'static str = "float4";

pub const FLOAT8_STR: &'static str = "float8";

pub const NUMERIC_STR: &'static str = "numeric";

pub const DATE_STR: &'static str = "date";

pub const TIME_STR: &'static str = "time";

pub const TIMEZ_STR: &'static str = "time with timezone";

pub const TIMESTAMP_STR: &'static str = "timestamp";

pub const TIMESTAMPZ_STR: &'static str = "timestamp with timezone";

pub const INTERVAL_STR: &'static str = "interval";

pub const CHAR_STR: &'static str = "char";

pub const BINARY_STR: &'static str = "binary";

pub const CLOB_STR: &'static str = "clob";

pub const BLOB_STR: &'static str = "blob";

/// The type that the text `name` names.
pub open spec fn sql_type(name: Seq<char>) -> Option<TyModel> {
    if name == "int4"@ {
        Some(TyModel::Int4)
    } else if name == "float4"@ {
        Some(TyModel::Float4)
    } else {
        None
    }
}

/// Makes the type that `type_str` names. Fails with `UndefinedDataType` where
/// it names none.
pub fn parse_type_str(type_str: &str) -> (r: TResult<Ty>)
    ensures
        match r {
            Ok(ty) => sql_type(type_str@) == Some(ty@),
            Err(e) => sql_type(type_str@) is None && e.undefined_type(type_str@),
        },
{
    if str_eq(type_str, INT4_STR) {
        Ok(Ty::Int4)
    } else if str_eq(type_str, FLOAT4_STR) {
        Ok(Ty::Float4)
    } else {
        Err(Error::UndefinedDataType(type_str.to_owned()))
    }
}

/// The factory of the SQL types.
#[derive(Clone, Copy, Debug)]
pub struct SqlTypes;

impl TypeFactory for SqlTypes {
    open spec fn made(&self, type_sign: Seq<char>) -> Option<TyModel> {
        sql_type(type_sign)
    }

    fn create(&self, type_sign: &str) -> (r: TResult<Ty>) {
        parse_type_str(type_sign)
    }
}

/// The type of 32-bit integers.
#[derive(Clone, Copy, Debug)]
pub struct Int4 {
    id: TypeId,
}

impl Int4 {
    pub fn new() -> (ty: Int4)
        ensures
            ty.spec_name() == "int4"@,
    {
        Int4 { id: TypeId { name: INT4_STR } }
    }
}

impl Type for Int4 {
    closed spec fn spec_name(&self) -> Seq<char> {
        self.id.name@
    }

    open spec fn spec_width(&self) -> nat {
        4
    }

    #[inline]
    fn type_id(&self) -> (id: TypeId) {
        self.id
    }

    #[inline]
    fn display_name(&self) -> (name: &str) {
        self.id.name
    }

    #[inline]
    fn is_comparable(&self) -> (b: bool)
        ensures
            b,
    {
        true
    }

    #[inline]
    fn is_orderable(&self) -> (b: bool)
        ensures
            b,
    {
        true
    }

    #[inline]
    fn type_params(&self) -> (params: Vec<Ty>)
        ensures
            params@.len() == 0,
    {
        Vec::new()
    }

    #[inline]
    fn create_minipage(&self) -> (page: MiniPage) {
        MiniPage::new(4)
    }
}

/// The type of 32-bit floating-point numbers.
#[derive(Clone, Copy, Debug)]
pub struct Float4 {
    id: TypeId,
}

impl Float4 {
    pub fn new() -> (ty: Float4)
        ensures
            ty.spec_name() == "float4"@,
    {
        Float4 { id: TypeId { name: FLOAT4_STR } }
    }
}

impl Type for Float4 {
    closed spec fn spec_name(&self) -> Seq<char> {
        self.id.name@
    }

    open spec fn spec_width(&self) -> nat {
        4
    }

    #[inline]
    fn type_id(&self) -> (id: TypeId) {
        self.id
    }

    #[inline]
    fn display_name(&self) -> (name: &str) {
        self.id.name
    }

    #[inline]
    fn is_comparable(&self) -> (b: bool)
        ensures
            b,
    {
        true
    }

    #[inline]
    fn is_orderable(&self) -> (b: bool)
        ensures
            b,
    {
        true
    }

    #[inline]
    fn type_params(&self) -> (params: Vec<Ty>)
        ensures
            params@.len() == 0,
    {
        Vec::new()
    }

    #[inline]
    fn create_minipage(&self) -> (page: MiniPage) {
        MiniPage::new(4)
    }
}

} // verus!
