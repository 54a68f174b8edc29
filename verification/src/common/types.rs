//! The types that the catalog knows: a closed set of tags, some with
//! attributes, some made of other types.

use vstd::prelude::*;
use vstd::string::StringExecFns;
use crate::constant::{TEXT_SIZE, VECTOR_SIZE};
use crate::rows::minipage::MiniPage;

verus! {

/// Identifier of a type: its name, which no other type has.
#[derive(Clone, Copy, Debug)]
pub struct TypeId {
    pub name: &'static str,
}

/// Computes the hash keys of the values of a column.
pub trait HashFn<T> {
    fn hash(v: &MiniPage, keys: &mut [T]);
}

/// Maker of the hash functions of a type, and of the columns that hold
/// 32-bit hash keys.
pub trait HashFnFactory {
    /// The hash function of 32-bit keys.
    type Hash32: HashFn<i32>;

    /// A column for 32-bit hash keys.
    fn create_hash32_block() -> MiniPage;
}

/// What the engine asks of a type.
pub trait Type {
    /// The type's name.
    spec fn spec_name(&self) -> Seq<char>;

    /// Bytes that one value takes in a column.
    spec fn spec_width(&self) -> nat;

    /// The type's identifier.
    fn type_id(&self) -> (id: TypeId)
        ensures
            id.name@ == self.spec_name(),
    ;

    /// The name under which the type is shown.
    fn display_name(&self) -> (name: &str)
        ensures
            name@ == self.spec_name(),
    ;

    /// Whether two values of the type can be tested for equality.
    fn is_comparable(&self) -> bool;

    /// Whether the values of the type have an order.
    fn is_orderable(&self) -> bool;

    /// The types that the type is made of.
    fn type_params(&self) -> Vec<Ty>;

    /// A column of zeros for values of the type.
    fn create_minipage(&self) -> (page: MiniPage)
        ensures
            page.wf(),
            page.spec_width() == self.spec_width(),
            page.bytes() == Seq::new((self.spec_width() * VECTOR_SIZE) as nat, |i: int| 0u8),
    ;
}

/// The type of 32-bit integers.
#[derive(Clone, Copy, Debug, PartialEq)]
pub struct Int4Type;

impl Type for Int4Type {
    open spec fn spec_name(&self) -> Seq<char> {
        "int4"@
    }

    open spec fn spec_width(&self) -> nat {
        4
    }

    #[inline]
    fn type_id(&self) -> (id: TypeId) {
        TypeId { name: "int4" }
    }

    #[inline]
    fn display_name(&self) -> (name: &str) {
        "int4"
    }

    #[inline]
    fn is_comparable(&self) -> (b: bool)
        ensures
            b,
    {
        true
    }

    #[inline]
    fn is_orderable(&self) -> (b: bool)
        ensures
            b,
    {
        true
    }

    #[inline]
    fn type_params(&self) -> (params: Vec<Ty>)
        ensures
            params@.len() == 0,
    {
        Vec::new()
    }

    #[inline]
    fn create_minipage(&self) -> (page: MiniPage) {
        MiniPage::new(4)
    }
}

/// The type of a value.
#[derive(Debug)]
pub enum Ty {
    Bool,
    Int1,
    Int2,
    Int4,
    Int8,
    Float4,
    Float8,
    /// Precision (1 to 38) and scale (at most the precision).
    Numeric(u8, Option<u8>),
    Date,
    Time,
    Timez,
    Timestamp,
    Timestampz,
    Interval,
    /// Its maximum length is 127.
    Char(u8),
    /// Its maximum length is 127.
    Binary(u8),
    Clob,
    Blob,
    Array(Box<Ty>),
    Struct(Vec<Ty>),
    /// Type of the keys, type of the values.
    Mapping(Box<Ty>, Box<Ty>),
}

/// What a `Ty` stands for.
pub enum TyModel {
    Bool,
    Int1,
    Int2,
    Int4,
    Int8,
    Float4,
    Float8,
    Numeric(u8, Option<u8>),
    Date,
    Time,
    Timez,
    Timestamp,
    Timestampz,
    Interval,
    Char(u8),
    Binary(u8),
    Clob,
    Blob,
    Array(Box<TyModel>),
    Struct(Seq<TyModel>),
    Mapping(Box<TyModel>, Box<TyModel>),
}

/// The digit `d`, which is less than ten, as a character.
pub open spec fn digit(d: nat) -> char {
    if d == 0 {
        '0'
    } else if d == 1 {
        '1'
    } else if d == 2 {
        '2'
    } else if d == 3 {
        '3'
    } else if d == 4 {
        '4'
    } else if d == 5 {
        '5'
    } else if d == 6 {
        '6'
    } else if d == 7 {
        '7'
    } else if d == 8 {
        '8'
    } else {
        '9'
    }
}

/// The number `n` written in decimal digits.
pub open spec fn decimal(n: nat) -> Seq<char>
    decreases n,
{
    if n < 10 {
        seq![digit(n)]
    } else {
        decimal(n / 10).push(digit(n % 10))
    }
}

/// The strings `parts`, one after the other, with `sep` between each two.
pub open spec fn joined(parts: Seq<Seq<char>>, sep: Seq<char>) -> Seq<char>
    decreases parts.len(),
{
    if parts.len() == 0 {
        Seq::empty()
    } else if parts.len() == 1 {
        parts[0]
    } else {
        joined(parts.drop_last(), sep) + sep + parts.last()
    }
}

/// The views of the strings in `parts`, in their order.
pub open spec fn views(parts: Seq<String>) -> Seq<Seq<char>> {
    Seq::new(parts.len(), |i: int| parts[i]@)
}

/// The models of the types in `tys`, in their order.
pub open spec fn models(tys: Seq<Ty>) -> Seq<TyModel> {
    Seq::new(tys.len(), |i: int| tys[i].model())
}

/// The names under which the types in `ts` are shown, in their order.
pub open spec fn names_of(ts: Seq<TyModel>) -> Seq<Seq<char>>
    decreases ts,
{
    Seq::new(
        ts.len(),
        |i: int|
            if 0 <= i < ts.len() {
                ts[i].name()
            } else {
                Seq::empty()
            },
    )
}

impl TyModel {
    /// The name under which the type is shown.
    pub open spec fn name(self) -> Seq<char>
        decreases self,
    {
        match self {
            TyModel::Bool => "bool"@,
            TyModel::Int1 => "int1"@,
            TyModel::Int2 => "int2"@,
            TyModel::Int4 => "int4"@,
            TyModel::Int8 => "int8"@,
            TyModel::Float4 => "float4"@,
            TyModel::Float8 => "float8"@,
            TyModel::Numeric(p, s) => match s {
                Some(scale) => "numeric ("@ + decimal(p as nat) + ", "@ + decimal(scale as nat)
                    + ")"@,
                None => "numeric ("@ + decimal(p as nat) + ")"@,
            },
            TyModel::Date => "date"@,
            TyModel::Time => "time"@,
            TyModel::Timez => "time with timezone"@,
            TyModel::Timestamp => "timestamp"@,
            TyModel::Timestampz => "timeztamp with timezone"@,
            TyModel::Interval => "interval"@,
            TyModel::Char(len) => "char("@ + decimal(len as nat) + ")"@,
            TyModel::Binary(len) => "binary("@ + decimal(len as nat) + ")"@,
            TyModel::Clob => "clob"@,
            TyModel::Blob => "blob"@,
            TyModel::Array(t) => "array<"@ + t.name() + ">"@,
            TyModel::Struct(ts) => "struct("@ + joined(names_of(ts), ", "@) + ")"@,
            TyModel::Mapping(k, v) => "map<"@ + k.name() + ","@ + v.name() + ">"@,
        }
    }

    /// Whether values of the type have a size: those of a numeric, an array, a
    /// struct or a mapping have none yet.
    pub open spec fn sized(self) -> bool {
        !(self is Numeric || self is Array || self is Struct || self is Mapping)
    }

    /// Bytes that one value of a sized type takes in a column.
    pub open spec fn size_of(self) -> u32 {
        match self {
            TyModel::Bool => 1,
            TyModel::Int1 => 1,
            TyModel::Int2 => 2,
            TyModel::Int4 => 4,
            TyModel::Int8 => 8,
            TyModel::Float4 => 4,
            TyModel::Float8 => 8,
            TyModel::Date => 4,
            TyModel::Time => 8,
            TyModel::Timez => 12,
            TyModel::Timestamp => 8,
            TyModel::Timestampz => 12,
            TyModel::Interval => 12,
            TyModel::Char(len) => len as u32,
            TyModel::Binary(len) => len as u32,
            TyModel::Clob => TEXT_SIZE as u32,
            TyModel::Blob => TEXT_SIZE as u32,
            _ => 0,
        }
    }

    /// Place of a numeric type in the order in which arithmetic widens its
    /// operands; `None` for a type that is not numeric.
    pub open spec fn numeric_rank(self) -> Option<nat> {
        match self {
            TyModel::Int1 => Some(1),
            TyModel::Int2 => Some(2),
            TyModel::Int4 => Some(3),
            TyModel::Int8 => Some(4),
            TyModel::Float4 => Some(5),
            TyModel::Float8 => Some(6),
            _ => None,
        }
    }
}

/// The values of a type that has a size take less than 256 bytes, so that a
/// column of them can be allocated.
pub proof fn lemma_size_bound(ty: TyModel)
    requires
        ty.sized(),
    ensures
        ty.size_of() <= 255,
        ty.size_of() * VECTOR_SIZE <= usize::MAX,
{
}

/// The type of the result of an operator on operands of the types `lhs` and
/// `rhs`, where the operator is defined: of two numeric types the wider one;
/// of two truth values, two character objects or two binary objects that same
/// type.
pub open spec fn result_ty(lhs: TyModel, rhs: TyModel) -> Option<TyModel> {
    if lhs.numeric_rank() is Some && rhs.numeric_rank() is Some {
        if rhs.numeric_rank()->0 >= lhs.numeric_rank()->0 {
            Some(rhs)
        } else {
            Some(lhs)
        }
    } else if (lhs is Bool && rhs is Bool) || (lhs is Clob && rhs is Clob) || (lhs is Blob
        && rhs is Blob) {
        Some(rhs)
    } else {
        None
    }
}

/// The digit `d` as a string.
fn digit_str(d: u8) -> (s: &'static str)
    requires
        d < 10,
    ensures
        s@ == seq![digit(d as nat)],
{
    proof {
        reveal_strlit("0");
        reveal_strlit("1");
        reveal_strlit("2");
        reveal_strlit("3");
        reveal_strlit("4");
        reveal_strlit("5");
        reveal_strlit("6");
        reveal_strlit("7");
        reveal_strlit("8");
        reveal_strlit("9");
    }
    let s = if d == 0 {
        "0"
    } else if d == 1 {
        "1"
    } else if d == 2 {
        "2"
    } else if d == 3 {
        "3"
    } else if d == 4 {
        "4"
    } else if d == 5 {
        "5"
    } else if d == 6 {
        "6"
    } else if d == 7 {
        "7"
    } else if d == 8 {
        "8"
    } else {
        "9"
    };
    assert(s@ =~= seq![digit(d as nat)]);
    s
}

/// Appends the decimal digits of `n` to `s`.
fn append_decimal(s: &mut String, n: u8)
    ensures
        final(s)@ == old(s)@ + decimal(n as nat),
{
    if n >= 100 {
        s.append(digit_str(n / 100));
        s.append(digit_str(n / 10 % 10));
        s.append(digit_str(n % 10));
        assert(decimal(n as nat) =~= seq![
            digit((n / 100) as nat),
            digit((n / 10 % 10) as nat),
            digit((n % 10) as nat),
        ]) by {
            assert(decimal((n / 100) as nat) == seq![digit((n / 100) as nat)]);
            assert(decimal((n / 10) as nat) == decimal((n / 10 / 10) as nat).push(
                digit((n / 10 % 10) as nat),
            ));
        }
        assert(s@ =~= old(s)@ + decimal(n as nat));
    } else if n >= 10 {
        s.append(digit_str(n / 10));
        s.append(digit_str(n % 10));
        assert(decimal(n as nat) =~= seq![digit((n / 10) as nat), digit((n % 10) as nat)]) by {
            assert(decimal((n / 10) as nat) == seq![digit((n / 10) as nat)]);
        }
        assert(s@ =~= old(s)@ + decimal(n as nat));
    } else {
        s.append(digit_str(n));
        assert(s@ =~= old(s)@ + decimal(n as nat));
    }
}

/// Joins the strings `parts` with `sep` between each two.
///
/// Calls `Itertools::join` of the crate itertools on the strings in their
/// order. It is believed to return the first string followed, for each
/// further one, by `sep` and that string, and the empty string where there is
/// none.
#[verifier::external_body]
fn join_strings(parts: &Vec<String>, sep: &str) -> (s: String)
    ensures
        s@ == joined(views(parts@), sep@),
{
    itertools::Itertools::join(&mut parts.iter(), sep)
}

impl Ty {
    /// The name under which the type is shown.
    pub fn to_string(&self) -> (s: String)
        ensures
            s@ == self@.name(),
        decreases self,
    {
        match self {
            Ty::Bool => String::from_str("bool"),
            Ty::Int1 => String::from_str("int1"),
            Ty::Int2 => String::from_str("int2"),
            Ty::Int4 => String::from_str("int4"),
            Ty::Int8 => String::from_str("int8"),
            Ty::Float4 => String::from_str("float4"),
            Ty::Float8 => String::from_str("float8"),
            Ty::Numeric(p, sc) => {
                let mut s = String::from_str("numeric (");
                append_decimal(&mut s, *p);
                match sc {
                    Some(scale) => {
                        s.append(", ");
                        append_decimal(&mut s, *scale);
                    },
                    None => {},
                }
                s.append(")");
                s
            },
            Ty::Date => String::from_str("date"),
            Ty::Time => String::from_str("time"),
            Ty::Timez => String::from_str("time with timezone"),
            Ty::Timestamp => String::from_str("timestamp"),
            Ty::Timestampz => String::from_str("timeztamp with timezone"),
            Ty::Interval => String::from_str("interval"),
            Ty::Char(len) => {
                let mut s = String::from_str("char(");
                append_decimal(&mut s, *len);
                s.append(")");
                s
            },
            Ty::Binary(len) => {
                let mut s = String::from_str("binary(");
                append_decimal(&mut s, *len);
                s.append(")");
                s
            },
            Ty::Clob => String::from_str("clob"),
            Ty::Blob => String::from_str("blob"),
            Ty::Array(t) => {
                let mut s = String::from_str("array<");
                let inner = t.to_string();
                s.append(inner.as_str());
                s.append(">");
                s
            },
            Ty::Struct(ts) => {
                let mut names: Vec<String> = Vec::new();
                let mut i: usize = 0;
                while i < ts.len()
                    invariant
                        i <= ts@.len(),
                        names@.len() == i,
                        forall|j: int| 0 <= j < i ==> names@[j]@ == ts@[j]@.name(),
                        self == (Ty::Struct(*ts)),
                    decreases ts@.len() - i,
                {
                    proof {
                        vstd::std_specs::vec::axiom_vec_index_decreases(*ts, i as int);
                        assert(decreases_to!(self => self->Struct_0));
                        assert(decreases_to!(self => ts@[i as int]));
                    }
                    names.push(ts[i].to_string());
                    i = i + 1;
                }
                let mut s = String::from_str("struct(");
                let inner = join_strings(&names, ", ");
                s.append(inner.as_str());
                s.append(")");
                proof {
                    let ms = self@->Struct_0;
                    assert(views(names@) =~= names_of(ms));
                }
                s
            },
            Ty::Mapping(k, v) => {
                let mut s = String::from_str("map<");
                let kn = k.to_string();
                s.append(kn.as_str());
                s.append(",");
                let vn = v.to_string();
                s.append(vn.as_str());
                s.append(">");
                s
            },
        }
    }

    /// What the type stands for.
    pub open spec fn model(&self) -> TyModel
        decreases self,
    {
        match self {
            Ty::Bool => TyModel::Bool,
            Ty::Int1 => TyModel::Int1,
            Ty::Int2 => TyModel::Int2,
            Ty::Int4 => TyModel::Int4,
            Ty::Int8 => TyModel::Int8,
            Ty::Float4 => TyModel::Float4,
            Ty::Float8 => TyModel::Float8,
            Ty::Numeric(p, s) => TyModel::Numeric(*p, *s),
            Ty::Date => TyModel::Date,
            Ty::Time => TyModel::Time,
            Ty::Timez => TyModel::Timez,
            Ty::Timestamp => TyModel::Timestamp,
            Ty::Timestampz => TyModel::Timestampz,
            Ty::Interval => TyModel::Interval,
            Ty::Char(len) => TyModel::Char(*len),
            Ty::Binary(len) => TyModel::Binary(*len),
            Ty::Clob => TyModel::Clob,
            Ty::Blob => TyModel::Blob,
            Ty::Array(t) => TyModel::Array(Box::new(t.model())),
            Ty::Struct(ts) => TyModel::Struct(
                Seq::new(
                    ts@.len(),
                    |i: int|
                        if 0 <= i < ts@.len() {
                            ts@[i].model()
                        } else {
                            TyModel::Bool
                        },
                ),
            ),
            Ty::Mapping(k, v) => TyModel::Mapping(Box::new(k.model()), Box::new(v.model())),
        }
    }

    /// Whether `self` and `other` are the same type.
    pub fn same(&self, other: &Ty) -> (b: bool)
        ensures
            b == (self@ == other@),
        decreases self,
    {
        match (self, other) {
            (Ty::Bool, Ty::Bool) => true,
            (Ty::Int1, Ty::Int1) => true,
            (Ty::Int2, Ty::Int2) => true,
            (Ty::Int4, Ty::Int4) => true,
            (Ty::Int8, Ty::Int8) => true,
            (Ty::Float4, Ty::Float4) => true,
            (Ty::Float8, Ty::Float8) => true,
            (Ty::Numeric(p1, s1), Ty::Numeric(p2, s2)) => {
                *p1 == *p2 && match (s1, s2) {
                    (Some(a), Some(b)) => *a == *b,
                    (None, None) => true,
                    _ => false,
                }
            },
            (Ty::Date, Ty::Date) => true,
            (Ty::Time, Ty::Time) => true,
            (Ty::Timez, Ty::Timez) => true,
            (Ty::Timestamp, Ty::Timestamp) => true,
            (Ty::Timestampz, Ty::Timestampz) => true,
            (Ty::Interval, Ty::Interval) => true,
            (Ty::Char(a), Ty::Char(b)) => *a == *b,
            (Ty::Binary(a), Ty::Binary(b)) => *a == *b,
            (Ty::Clob, Ty::Clob) => true,
            (Ty::Blob, Ty::Blob) => true,
            (Ty::Array(a), Ty::Array(b)) => a.same(b),
            (Ty::Mapping(k1, v1), Ty::Mapping(k2, v2)) => k1.same(k2) && v1.same(v2),
            (Ty::Struct(a), Ty::Struct(b)) => {
                if a.len() != b.len() {
                    assert(self@->Struct_0.len() != other@->Struct_0.len());
                    return false;
                }
                let mut i: usize = 0;
                while i < a.len()
                    invariant
                        i <= a@.len(),
                        a@.len() == b@.len(),
                        forall|j: int| 0 <= j < i ==> a@[j]@ == b@[j]@,
                        self == (Ty::Struct(*a)),
                        other == (Ty::Struct(*b)),
                    decreases a@.len() - i,
                {
                    proof {
                        vstd::std_specs::vec::axiom_vec_index_decreases(*a, i as int);
                        assert(decreases_to!(self => self->Struct_0));
                        assert(decreases_to!(self => a@[i as int]));
                    }
                    if !a[i].same(&b[i]) {
                        assert(self@->Struct_0[i as int] != other@->Struct_0[i as int]);
                        return false;
                    }
                    i = i + 1;
                }
                assert(self@->Struct_0 =~= other@->Struct_0);
                true
            },
            _ => false,
        }
    }

    /// Whether values of the type have a size.
    pub fn is_sized(&self) -> (b: bool)
        ensures
            b == self@.sized(),
    {
        match self {
            Ty::Numeric(_, _) | Ty::Array(_) | Ty::Struct(_) | Ty::Mapping(_, _) => false,
            _ => true,
        }
    }

    /// Bytes that one value of the type takes in a column.
    pub fn size_of(&self) -> (n: u32)
        requires
            self@.sized(),
        ensures
            n == self@.size_of(),
    {
        match self {
            Ty::Bool => 1,
            Ty::Int1 => 1,
            Ty::Int2 => 2,
            Ty::Int4 => 4,
            Ty::Int8 => 8,
            Ty::Float4 => 4,
            Ty::Float8 => 8,
            Ty::Date => 4,
            Ty::Time => 8,
            Ty::Timez => 12,
            Ty::Timestamp => 8,
            Ty::Timestampz => 12,
            Ty::Interval => 12,
            Ty::Char(len) => *len as u32,
            Ty::Binary(len) => *len as u32,
            Ty::Clob => TEXT_SIZE as u32,
            Ty::Blob => TEXT_SIZE as u32,
            _ => 0,
        }
    }

    /// Whether the length of the type's values is an attribute of the type.
    pub fn is_variable(&self) -> (b: bool)
        ensures
            b == (self@ is Char || self@ is Binary),
    {
        match self {
            Ty::Char(_) | Ty::Binary(_) => true,
            _ => false,
        }
    }
}

impl View for Ty {
    type V = TyModel;

    open spec fn view(&self) -> TyModel {
        self.model()
    }
}

impl Clone for Ty {
    fn clone(&self) -> (r: Ty)
        ensures
            r@ == self@,
        decreases self,
    {
        match self {
            Ty::Bool => Ty::Bool,
            Ty::Int1 => Ty::Int1,
            Ty::Int2 => Ty::Int2,
            Ty::Int4 => Ty::Int4,
            Ty::Int8 => Ty::Int8,
            Ty::Float4 => Ty::Float4,
            Ty::Float8 => Ty::Float8,
            Ty::Numeric(p, s) => Ty::Numeric(*p, *s),
            Ty::Date => Ty::Date,
            Ty::Time => Ty::Time,
            Ty::Timez => Ty::Timez,
            Ty::Timestamp => Ty::Timestamp,
            Ty::Timestampz => Ty::Timestampz,
            Ty::Interval => Ty::Interval,
            Ty::Char(len) => Ty::Char(*len),
            Ty::Binary(len) => Ty::Binary(*len),
            Ty::Clob => Ty::Clob,
            Ty::Blob => Ty::Blob,
            Ty::Array(t) => Ty::Array(Box::new((**t).clone())),
            Ty::Mapping(k, v) => Ty::Mapping(Box::new((**k).clone()), Box::new((**v).clone())),
            Ty::Struct(ts) => {
                let mut out: Vec<Ty> = Vec::new();
                let mut i: usize = 0;
                while i < ts.len()
                    invariant
                        i <= ts@.len(),
                        out@.len() == i,
                        forall|j: int| 0 <= j < i ==> out@[j]@ == ts@[j]@,
                        self == (Ty::Struct(*ts)),
                    decreases ts@.len() - i,
                {
                    proof {
                        vstd::std_specs::vec::axiom_vec_index_decreases(*ts, i as int);
                        assert(decreases_to!(self => self->Struct_0));
                        assert(decreases_to!(self => ts@[i as int]));
                    }
                    out.push(ts[i].clone());
                    i = i + 1;
                }
                let r = Ty::Struct(out);
                assert(r@->Struct_0 =~= self@->Struct_0);
                r
            },
        }
    }
}

/// Place of a numeric type in the widening order, 0 for any other type.
fn rank_of(ty: &Ty) -> (r: u8)
    ensures
        match ty@.numeric_rank() {
            Some(n) => r == n,
            None => r == 0,
        },
{
    match ty {
        Ty::Int1 => 1,
        Ty::Int2 => 2,
        Ty::Int4 => 3,
        Ty::Int8 => 4,
        Ty::Float4 => 5,
        Ty::Float8 => 6,
        _ => 0,
    }
}

/// Whether an operator is defined on operands of the types `lhs_ty` and
/// `rhs_ty`.
pub fn has_result_data_ty(lhs_ty: &Ty, rhs_ty: &Ty) -> (b: bool)
    ensures
        b == result_ty(lhs_ty@, rhs_ty@) is Some,
{
    if rank_of(lhs_ty) > 0 && rank_of(rhs_ty) > 0 {
        true
    } else {
        match (lhs_ty, rhs_ty) {
            (Ty::Bool, Ty::Bool) => true,
            (Ty::Clob, Ty::Clob) => true,
            (Ty::Blob, Ty::Blob) => true,
            _ => false,
        }
    }
}

/// Determines the type of the result of an operator from the types of its two
/// operands, on which the operator must be defined.
pub fn result_data_ty(lhs_ty: &Ty, rhs_ty: &Ty) -> (r: Ty)
    requires
        result_ty(lhs_ty@, rhs_ty@) is Some,
    ensures
        Some(r@) == result_ty(lhs_ty@, rhs_ty@),
{
    let l: u8 = rank_of(lhs_ty);
    let r: u8 = rank_of(rhs_ty);
    if l > 0 && r > 0 && r < l {
        lhs_ty.clone()
    } else {
        rhs_ty.clone()
    }
}

} // verus!
