//! Functions that the catalog holds: what a function is found by, and what is
//! found.

use vstd::prelude::*;
use crate::common::types::{models, Ty, TyModel};
use crate::err::Void;
use crate::rows::minipage::MiniPage;
use crate::text::str_eq;

verus! {

/// Kind of a function.
#[derive(Clone, Copy, PartialEq, Eq, Debug, Structural)]
pub enum FnKind {
    Scalar,
    Aggregation,
    Window,
}

/// A function of no argument: fills the first `rows` rows of `out`.
pub trait NoArgFn {
    fn invoke(&self, out: &mut MiniPage, rows: usize) -> Void;
}

/// A function of one argument: fills the first `rows` rows of `out` from
/// those of `arg`.
pub trait UnaryFn {
    fn invoke(&self, arg: &MiniPage, out: &mut MiniPage, rows: usize) -> Void;
}

/// A function of two arguments: fills the first `rows` rows of `out` from
/// those of `lhs` and `rhs`.
pub trait BinaryFn {
    fn invoke(&self, lhs: &MiniPage, rhs: &MiniPage, out: &mut MiniPage, rows: usize) -> Void;
}

/// A function of three arguments: fills the first `rows` rows of `out` from
/// those of `a`, `b` and `c`.
pub trait TrinityFn {
    fn invoke(
        &self,
        a: &MiniPage,
        b: &MiniPage,
        c: &MiniPage,
        out: &mut MiniPage,
        rows: usize,
    ) -> Void;
}

/// How a function is called: what implements it, by the number of its
/// arguments.
pub enum InvokeMethod {
    NoArgOp(Box<dyn NoArgFn>),
    UnaryOp(Box<dyn UnaryFn>),
    BinaryOp(Box<dyn BinaryFn>),
    TrinityOp(Box<dyn TrinityFn>),
}

/// What a function is found by: its name, the types of its arguments in
/// their order, and its kind.
#[derive(Debug)]
pub struct FuncSignature {
    name: String,
    arg_types: Vec<Ty>,
    fn_kind: FnKind,
}

/// What a signature stands for.
pub struct FuncSignatureView {
    pub name: Seq<char>,
    pub arg_types: Seq<TyModel>,
    pub fn_kind: FnKind,
}

/// The signature of the function `name` of the kind `fn_kind` that takes
/// arguments of the types `arg_types`.
pub open spec fn sign_view(name: Seq<char>, arg_types: Seq<Ty>,
    fn_kind: FnKind) -> FuncSignatureView {
    FuncSignatureView { name, arg_types: models(arg_types), fn_kind }
}

impl View for FuncSignature {
    type V = FuncSignatureView;

    closed spec fn view(&self) -> FuncSignatureView {
        FuncSignatureView {
            name: self.name@,
            arg_types: models(self.arg_types@),
            fn_kind: self.fn_kind,
        }
    }
}

impl FuncSignature {
    /// The signature of the function `name` of the kind `fn_kind` that takes
    /// arguments of the types `arg_types`.
    pub fn new(name: String, arg_types: Vec<Ty>, fn_kind: FnKind) -> (sign: FuncSignature)
        ensures
            sign@ == sign_view(name@, arg_types@, fn_kind),
    {
        FuncSignature { name, arg_types, fn_kind }
    }

    /// The function's name.
    pub fn name(&self) -> (name: &str)
        ensures
            name@ == self@.name,
    {
        self.name.as_str()
    }

    /// The types of the arguments, in their order.
    pub fn arg_types(&self) -> (tys: &Vec<Ty>)
        ensures
            tys@.len() == self@.arg_types.len(),
            models(tys@) == self@.arg_types,
    {
        &self.arg_types
    }

    /// The function's kind.
    pub fn fn_kind(&self) -> (kind: FnKind)
        ensures
            kind == self@.fn_kind,
    {
        self.fn_kind
    }

    /// Whether `self` is the signature of the function `name` of the kind
    /// `fn_kind` that takes arguments of the types `arg_types`.
    pub fn matches(&self, name: &str, arg_types: &Vec<Ty>, fn_kind: FnKind) -> (b: bool)
        ensures
            b == (self@ == sign_view(name@, arg_types@, fn_kind)),
    {
        if self.fn_kind != fn_kind {
            return false;
        }
        if !str_eq(self.name.as_str(), name) {
            return false;
        }
        if self.arg_types.len() != arg_types.len() {
            assert(self@.arg_types.len() != models(arg_types@).len());
            return false;
        }
        let mut i: usize = 0;
        while i < self.arg_types.len()
            invariant
                i <= self.arg_types@.len(),
                self.arg_types@.len() == arg_types@.len(),
                forall|j: int| 0 <= j < i ==> self.arg_types@[j]@ == arg_types@[j]@,
            decreases self.arg_types@.len() - i,
        {
            if !self.arg_types[i].same(&arg_types[i]) {
                assert(self@.arg_types[i as int] != models(arg_types@)[i as int]);
                return false;
            }
            i = i + 1;
        }
        assert(self@.arg_types =~= models(arg_types@));
        true
    }

    /// Whether `self` and `other` are the same signature: the same name, the
    /// same types of arguments in the same order, and the same kind.
    pub fn same(&self, other: &FuncSignature) -> (b: bool)
        ensures
            b == (self@ == other@),
    {
        self.matches(other.name.as_str(), &other.arg_types, other.fn_kind)
    }
}

/// What the catalog holds of a function: the type of its result, its kind,
/// and what implements it.
pub struct FuncBody {
    ret_type: Ty,
    fn_kind: FnKind,
    method: InvokeMethod,
}

impl FuncBody {
    /// The type of the function's result.
    pub closed spec fn spec_ret_type(&self) -> TyModel {
        self.ret_type@
    }

    /// The function's kind.
    pub closed spec fn spec_fn_kind(&self) -> FnKind {
        self.fn_kind
    }

    /// What implements the function.
    pub closed spec fn spec_method(&self) -> InvokeMethod {
        self.method
    }

    /// The body of a function of the kind `fn_kind` that `method` implements
    /// and whose result has the type `ret_type`.
    pub fn new(ret_type: Ty, fn_kind: FnKind, method: InvokeMethod) -> (body: FuncBody)
        ensures
            body.spec_ret_type() == ret_type@,
            body.spec_fn_kind() == fn_kind,
            body.spec_method() == method,
    {
        FuncBody { ret_type, fn_kind, method }
    }

    /// The type of the function's result.
    pub fn ret_type(&self) -> (ty: &Ty)
        ensures
            ty@ == self.spec_ret_type(),
    {
        &self.ret_type
    }

    /// The function's kind.
    pub fn fn_kind(&self) -> (kind: FnKind)
        ensures
            kind == self.spec_fn_kind(),
    {
        self.fn_kind
    }

    /// What implements the function.
    pub fn method(&self) -> (method: &InvokeMethod)
        ensures
            *method == self.spec_method(),
    {
        &self.method
    }
}

} // verus!
