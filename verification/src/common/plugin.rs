//! The catalog: the registry of types, the registry of functions, and the
//! plugins that fill them.
//!
//! A registry is filled while plugins are loaded and only read afterwards.
//! Nothing is ever taken out of it, and nothing in it is replaced: a name or a
//! signature that is already there is refused, and the registry stays as it
//! was.

use vstd::prelude::*;
use vstd::utf8::encode_utf8;
use crate::common::func::{
    sign_view,
    FnKind,
    FuncBody,
    FuncSignature,
    FuncSignatureView,
    InvokeMethod,
    NoArgFn,
};
use crate::common::types::{models, Ty, TyModel};
use crate::err::{Error, TResult, Void};
use crate::text::{compare_str, lemma_lex_asymmetric, lemma_lex_transitive, lex_lt, str_eq, Rank};

verus! {

/// A set of types and functions that is loaded into the catalog as a whole.
pub trait Plugin<F: TypeFactory> {
    /// The plugin's name.
    fn name(&self) -> &str;

    /// Registers what the plugin brings.
    fn load(&self, mgr: &mut PluginManager<F>) -> (r: Void)
        requires
            old(mgr).wf(),
        ensures
            final(mgr).wf(),
    ;
}

/// What makes a type from the text that names it.
pub trait TypeFactory {
    /// The type that the factory makes from `type_sign`, where it makes one.
    spec fn made(&self, type_sign: Seq<char>) -> Option<TyModel>;

    /// Makes the type that `type_sign` names, or fails.
    fn create(&self, type_sign: &str) -> (r: TResult<Ty>)
        ensures
            match r {
                Ok(ty) => self.made(type_sign@) == Some(ty@),
                Err(_) => self.made(type_sign@) is None,
            },
    ;
}

/// A signature and the body registered under it.
pub struct FuncEntry {
    pub sign: FuncSignature,
    pub body: FuncBody,
}

/// Whether the name `a` comes before the name `b` in the order of their
/// bytes.
pub open spec fn name_lt(a: Seq<char>, b: Seq<char>) -> bool {
    lex_lt(encode_utf8(a), encode_utf8(b))
}

/// Whether the names stand in their order, none twice.
pub open spec fn names_ascend(names: Seq<Seq<char>>) -> bool {
    forall|i: int, j: int| 0 <= i < j < names.len() ==> name_lt(names[i], names[j])
}

/// Whether `name` is among `names`.
pub open spec fn has_type(names: Seq<Seq<char>>, name: Seq<char>) -> bool {
    names.contains(name)
}

/// Place of `name` among `names`.
pub open spec fn type_index(names: Seq<Seq<char>>, name: Seq<char>) -> int {
    names.index_of(name)
}

/// The place at which `name` belongs among `names`, which stand in their
/// order: behind the names that come before it.
pub open spec fn type_place(names: Seq<Seq<char>>, name: Seq<char>) -> int
    decreases names.len(),
{
    if names.len() == 0 {
        0
    } else if name_lt(names.last(), name) {
        names.len() as int
    } else {
        type_place(names.drop_last(), name)
    }
}

/// What becomes of the names when a type called `name` is to be added: they
/// stay as they are where the name is taken, else they take it in where it
/// belongs.
pub open spec fn names_added(names: Seq<Seq<char>>, name: Seq<char>) -> Seq<Seq<char>> {
    if has_type(names, name) {
        names
    } else {
        names.insert(type_place(names, name), name)
    }
}

/// What becomes of the factories, which stand as their names do, when
/// `factory` is to be added under `name`.
pub open spec fn factories_added<F: TypeFactory>(
    names: Seq<Seq<char>>,
    factories: Seq<F>,
    name: Seq<char>,
    factory: F,
) -> Seq<F> {
    if has_type(names, name) {
        factories
    } else {
        factories.insert(type_place(names, name), factory)
    }
}

/// The type that the registered factories make from `name`, where a factory
/// is registered under that name and makes one.
pub open spec fn type_made<F: TypeFactory>(
    names: Seq<Seq<char>>,
    factories: Seq<F>,
    name: Seq<char>,
) -> Option<TyModel> {
    if has_type(names, name) {
        factories[type_index(names, name)].made(name)
    } else {
        None
    }
}

/// Whether the registered factories make a type from each of `raw`.
pub open spec fn all_made<F: TypeFactory>(
    names: Seq<Seq<char>>,
    factories: Seq<F>,
    raw: Seq<Seq<char>>,
) -> bool {
    forall|i: int| 0 <= i < raw.len() ==> (#[trigger] type_made(names, factories, raw[i])) is Some
}

/// The types that the registered factories make from `raw`, one for one.
pub open spec fn types_made<F: TypeFactory>(
    names: Seq<Seq<char>>,
    factories: Seq<F>,
    raw: Seq<Seq<char>>,
) -> Seq<TyModel> {
    Seq::new(raw.len(), |i: int| type_made(names, factories, raw[i])->0)
}

/// The views of the strings in `raw`, in their order.
pub open spec fn str_views(raw: Seq<&str>) -> Seq<Seq<char>> {
    Seq::new(raw.len(), |i: int| raw[i]@)
}

/// Of two different names one comes before the other.
pub proof fn lemma_name_order_total(a: Seq<char>, b: Seq<char>)
    ensures
        a == b || name_lt(a, b) || name_lt(b, a),
{
    let x = encode_utf8(a);
    let y = encode_utf8(b);
    if x == y {
        crate::text::lemma_same_bytes_same_string(a, b);
    } else {
        crate::text::lemma_lex_total(x, y);
    }
}

/// Among names in their order, a name that is not among them belongs behind
/// all that come before it and before all that come after it.
pub proof fn lemma_type_place(names: Seq<Seq<char>>, name: Seq<char>)
    requires
        names_ascend(names),
        !has_type(names, name),
    ensures
        0 <= type_place(names, name) <= names.len(),
        forall|i: int| 0 <= i < type_place(names, name) ==> name_lt(#[trigger] names[i], name),
        forall|i: int|
            type_place(names, name) <= i < names.len() ==> name_lt(name, #[trigger] names[i]),
    decreases names.len(),
{
    if names.len() == 0 {
    } else {
        let last = names.last();
        if name_lt(last, name) {
            assert forall|i: int| 0 <= i < names.len() implies name_lt(
                #[trigger] names[i],
                name,
            ) by {
                if i < names.len() - 1 {
                    assert(name_lt(names[i], names[names.len() - 1]));
                    lemma_lex_transitive(encode_utf8(names[i]), encode_utf8(last),
                        encode_utf8(name));
                }
            }
        } else {
            let front = names.drop_last();
            assert(names_ascend(front)) by {
                assert forall|i: int, j: int| 0 <= i < j < front.len() implies name_lt(
                    front[i],
                    front[j],
                ) by {
                    assert(name_lt(names[i], names[j]));
                }
            }
            assert(!has_type(front, name)) by {
                if front.contains(name) {
                    let w = front.index_of(name);
                    assert(names[w] == name);
                }
            }
            lemma_type_place(front, name);
            assert(names[names.len() - 1] != name);
            lemma_name_order_total(name, last);
            assert forall|i: int| type_place(names, name) <= i < names.len() implies name_lt(
                name,
                #[trigger] names[i],
            ) by {
                if i < front.len() {
                    assert(front[i] == names[i]);
                }
            }
            assert forall|i: int| 0 <= i < type_place(names, name) implies name_lt(
                #[trigger] names[i],
                name,
            ) by {
                assert(front[i] == names[i]);
            }
        }
    }
}

/// The place at which a name belongs is the only one behind all names that
/// come before it and before all that come after it.
pub proof fn lemma_type_place_found(names: Seq<Seq<char>>, name: Seq<char>, p: int)
    requires
        names_ascend(names),
        0 <= p <= names.len(),
        forall|i: int| 0 <= i < p ==> name_lt(#[trigger] names[i], name),
        forall|i: int| p <= i < names.len() ==> name_lt(name, #[trigger] names[i]),
    ensures
        !has_type(names, name),
        type_place(names, name) == p,
{
    if names.contains(name) {
        let w = names.index_of(name);
        if w < p {
            lemma_lex_asymmetric(encode_utf8(names[w]), encode_utf8(name));
        } else {
            lemma_lex_asymmetric(encode_utf8(name), encode_utf8(names[w]));
        }
    }
    lemma_type_place(names, name);
    let q = type_place(names, name);
    if p < q {
        assert(name_lt(names[p], name));
        lemma_lex_asymmetric(encode_utf8(names[p]), encode_utf8(name));
    } else if q < p {
        assert(name_lt(names[q], name));
        lemma_lex_asymmetric(encode_utf8(names[q]), encode_utf8(name));
    }
}

/// A name put where it belongs leaves the names in their order.
pub proof fn lemma_names_added_ascend(names: Seq<Seq<char>>, name: Seq<char>)
    requires
        names_ascend(names),
    ensures
        names_ascend(names_added(names, name)),
        has_type(names_added(names, name), name),
        names_added(names_added(names, name), name) == names_added(names, name),
{
    let after = names_added(names, name);
    if !has_type(names, name) {
        lemma_type_place(names, name);
        let p = type_place(names, name);
        assert(after.len() == names.len() + 1);
        assert(after[p] == name);
        assert forall|i: int, j: int| 0 <= i < j < after.len() implies name_lt(
            after[i],
            after[j],
        ) by {
            if i < p {
                assert(after[i] == names[i]);
                if j < p {
                    assert(after[j] == names[j]);
                    assert(name_lt(names[i], names[j]));
                } else if j == p {
                } else {
                    assert(after[j] == names[j - 1]);
                    assert(name_lt(names[i], names[j - 1]));
                }
            } else if i == p {
                assert(after[j] == names[j - 1]);
            } else {
                assert(after[i] == names[i - 1]);
                assert(after[j] == names[j - 1]);
                assert(name_lt(names[i - 1], names[j - 1]));
            }
        }
    }
}

/// Adding a type keeps every name that was there, with the type that is made
/// from it.
pub proof fn lemma_type_added_keeps<F: TypeFactory>(
    names: Seq<Seq<char>>,
    factories: Seq<F>,
    name: Seq<char>,
    factory: F,
    other: Seq<char>,
)
    requires
        names_ascend(names),
        factories.len() == names.len(),
        has_type(names, other),
    ensures
        has_type(names_added(names, name), other),
        type_made(
            names_added(names, name),
            factories_added(names, factories, name, factory),
            other,
        ) == type_made(names, factories, other),
{
    let after = names_added(names, name);
    if !has_type(names, name) {
        lemma_type_place(names, name);
        lemma_names_added_ascend(names, name);
        let p = type_place(names, name);
        let w = names.index_of(other);
        let v = if w < p {
            w
        } else {
            w + 1
        };
        assert(after[v] == other);
        let u = after.index_of(other);
        lemma_one_place(after, u, v);
        factories.insert_ensures(p, factory);
        assert(factories.insert(p, factory)[v] == factories[w]);
    }
}

/// Adding a type keeps the order of the names. Afterwards the name is
/// registered, so that it is refused when it is added once more, and names and
/// factories stay as they are.
pub proof fn lemma_type_added<F: TypeFactory>(
    names: Seq<Seq<char>>,
    factories: Seq<F>,
    name: Seq<char>,
    factory: F,
    again: F,
)
    requires
        names_ascend(names),
        factories.len() == names.len(),
    ensures
        names_ascend(names_added(names, name)),
        factories_added(names, factories, name, factory).len() == names_added(names, name).len(),
        has_type(names_added(names, name), name),
        names_added(names_added(names, name), name) == names_added(names, name),
        factories_added(
            names_added(names, name),
            factories_added(names, factories, name, factory),
            name,
            again,
        ) == factories_added(names, factories, name, factory),
{
    lemma_names_added_ascend(names, name);
    if !has_type(names, name) {
        lemma_type_place(names, name);
        factories.insert_ensures(type_place(names, name), factory);
        names.insert_ensures(type_place(names, name), name);
    }
}

/// Among names in their order a name stands at one place only.
pub proof fn lemma_one_place(names: Seq<Seq<char>>, i: int, j: int)
    requires
        names_ascend(names),
        0 <= i < names.len(),
        0 <= j < names.len(),
        names[i] == names[j],
    ensures
        i == j,
{
    if i < j {
        assert(name_lt(names[i], names[j]));
        lemma_lex_asymmetric(encode_utf8(names[i]), encode_utf8(names[j]));
    } else if j < i {
        assert(name_lt(names[j], names[i]));
        lemma_lex_asymmetric(encode_utf8(names[j]), encode_utf8(names[i]));
    }
}

/// Whether a function is registered under `sign`.
pub open spec fn has_func(entries: Seq<FuncEntry>, sign: FuncSignatureView) -> bool {
    exists|i: int| 0 <= i < entries.len() && (#[trigger] entries[i]).sign@ == sign
}

/// Place of the entry `sign` among `entries`.
pub open spec fn func_index(entries: Seq<FuncEntry>, sign: FuncSignatureView) -> int {
    choose|i: int| 0 <= i < entries.len() && (#[trigger] entries[i]).sign@ == sign
}

/// Whether no signature stands twice among the entries.
pub open spec fn signs_differ(entries: Seq<FuncEntry>) -> bool {
    forall|i: int, j: int|
        0 <= i < j < entries.len() ==> (#[trigger] entries[i]).sign@ != (
        #[trigger] entries[j]).sign@
}

/// What becomes of the entries when `entry` is to be added: they stay as they
/// are where its signature is taken, else it is appended.
pub open spec fn func_added(entries: Seq<FuncEntry>, entry: FuncEntry) -> Seq<FuncEntry> {
    if has_func(entries, entry.sign@) {
        entries
    } else {
        entries.push(entry)
    }
}

/// Adding an entry keeps the signatures apart, and afterwards the signature
/// is registered: a second entry of that signature is refused.
pub proof fn lemma_func_added(entries: Seq<FuncEntry>, entry: FuncEntry)
    requires
        signs_differ(entries),
    ensures
        signs_differ(func_added(entries, entry)),
        has_func(func_added(entries, entry), entry.sign@),
        forall|other: FuncEntry|
            other.sign@ == entry.sign@ ==> #[trigger] func_added(
                func_added(entries, entry),
                other,
            ) == func_added(entries, entry),
{
    let after = func_added(entries, entry);
    if has_func(entries, entry.sign@) {
    } else {
        assert(after[after.len() - 1].sign@ == entry.sign@);
        assert forall|i: int, j: int| 0 <= i < j < after.len() implies (#[trigger] after[i]).sign@
            != (#[trigger] after[j]).sign@ by {
            if j == after.len() - 1 {
                assert(entries[i].sign@ != entry.sign@);
            } else {
                assert(entries[i].sign@ != entries[j].sign@);
            }
        }
    }
}

/// A type name and the factory registered under it.
struct TypeEntry<F: TypeFactory> {
    name: String,
    factory: F,
}

/// Registry of types: factories of types by name, in the order of the names.
pub struct TypeRegistry<F: TypeFactory> {
    types: Vec<TypeEntry<F>>,
}

impl<F: TypeFactory> TypeRegistry<F> {
    /// The registered names, in their order.
    pub closed spec fn names(&self) -> Seq<Seq<char>> {
        Seq::new(self.types@.len(), |i: int| self.types@[i].name@)
    }

    /// The registered factories, each at the place of its name.
    pub closed spec fn factories(&self) -> Seq<F> {
        Seq::new(self.types@.len(), |i: int| self.types@[i].factory)
    }

    /// What holds of every registry: the names stand in their order, none
    /// twice, and each has its factory.
    pub open spec fn wf(&self) -> bool {
        &&& names_ascend(self.names())
        &&& self.factories().len() == self.names().len()
    }

    /// The empty registry.
    pub fn new() -> (reg: TypeRegistry<F>)
        ensures
            reg.wf(),
            reg.names() == Seq::<Seq<char>>::empty(),
            reg.factories() == Seq::<F>::empty(),
    {
        TypeRegistry { types: Vec::new() }
    }

    /// Registers the factory `ty.1` under the name `ty.0`. Fails with
    /// `DuplicatedTypeId`, and changes nothing, where the name is taken.
    #[inline]
    pub fn add(&mut self, ty: (&str, F)) -> (r: Void)
        requires
            old(self).wf(),
        ensures
            final(self).wf(),
            match r {
                Ok(_) => !has_type(old(self).names(), ty.0@),
                Err(e) => has_type(old(self).names(), ty.0@) && e is DuplicatedTypeId,
            },
            final(self).names() == names_added(old(self).names(), ty.0@),
            final(self).factories() == factories_added(
                old(self).names(),
                old(self).factories(),
                ty.0@,
                ty.1,
            ),
    {
        let mut p: usize = 0;
        let mut passed: bool = false;
        while p < self.types.len() && !passed
            invariant
                p <= self.types@.len(),
                *self == *old(self),
                old(self).wf(),
                forall|i: int| 0 <= i < p ==> name_lt((#[trigger] self.types@[i]).name@, ty.0@),
                passed ==> p < self.types@.len() && name_lt(ty.0@, self.types@[p as int].name@),
            decreases
                    self.types@.len() - p,
                    if passed {
                        0int
                    } else {
                        1int
                    },
        {
            match compare_str(self.types[p].name.as_str(), ty.0) {
                Rank::Less => {
                    p = p + 1;
                },
                Rank::Equal => {
                    proof {
                        assert(self.names()[p as int] == ty.0@);
                    }
                    return Err(Error::DuplicatedTypeId);
                },
                Rank::Greater => {
                    passed = true;
                },
            }
        }
        let name: String = ty.0.to_owned();
        proof {
            let names = old(self).names();
            assert forall|i: int| 0 <= i < p implies name_lt(#[trigger] names[i], ty.0@) by {
                assert(name_lt(self.types@[i].name@, ty.0@));
            }
            assert forall|i: int| p <= i < names.len() implies name_lt(
                ty.0@,
                #[trigger] names[i],
            ) by {
                assert(passed);
                if i > p {
                    assert(name_lt(names[p as int], names[i]));
                    lemma_lex_transitive(
                        encode_utf8(ty.0@),
                        encode_utf8(names[p as int]),
                        encode_utf8(names[i]),
                    );
                }
            }
            lemma_type_place_found(names, ty.0@, p as int);
            lemma_type_added(names, old(self).factories(), ty.0@, ty.1, ty.1);
        }
        self.types.insert(p, TypeEntry { name, factory: ty.1 });
        proof {
            let before = old(self).types@;
            assert(self.types@ == before.insert(p as int, TypeEntry { name, factory: ty.1 }));
            before.insert_ensures(p as int, TypeEntry { name, factory: ty.1 });
            old(self).names().insert_ensures(p as int, ty.0@);
            old(self).factories().insert_ensures(p as int, ty.1);
            assert forall|i: int| 0 <= i < self.types@.len() implies (#[trigger] self.names()[i])
                == old(self).names().insert(p as int, ty.0@)[i] && self.factories()[i]
                    == old(self).factories().insert(p as int, ty.1)[i] by {
                if i < p {
                    assert(self.types@[i] == before[i]);
                } else if i > p {
                    assert(self.types@[i] == before[i - 1]);
                }
            }
            assert(self.names() =~= old(self).names().insert(p as int, ty.0@));
            assert(self.factories() =~= old(self).factories().insert(p as int, ty.1));
        }
        Ok(())
    }

    /// Place of the entry `type_sign`, where there is one.
    fn position(&self, type_sign: &str) -> (r: Option<usize>)
        ensures
            match r {
                Some(i) => i < self.names().len() && self.names()[i as int] == type_sign@,
                None => !has_type(self.names(), type_sign@),
            },
    {
        let mut i: usize = 0;
        while i < self.types.len()
            invariant
                i <= self.types@.len(),
                forall|j: int| 0 <= j < i ==> (#[trigger] self.types@[j]).name@ != type_sign@,
            decreases self.types@.len() - i,
        {
            if str_eq(self.types[i].name.as_str(), type_sign) {
                return Some(i);
            }
            i = i + 1;
        }
        proof {
            if self.names().contains(type_sign@) {
                let w = self.names().index_of(type_sign@);
                assert(self.types@[w].name@ == type_sign@);
            }
        }
        None
    }

    /// Makes the type that `type_sign` names with the factory registered under
    /// that name. Fails with `UndefinedDataType` where none is registered,
    /// and as the factory fails where it makes none.
    #[inline]
    pub fn get(&self, type_sign: &str) -> (r: TResult<Ty>)
        requires
            self.wf(),
        ensures
            match r {
                Ok(ty) => type_made(self.names(), self.factories(), type_sign@) == Some(ty@),
                Err(e) => type_made(self.names(), self.factories(), type_sign@) is None && (
                !has_type(self.names(), type_sign@) ==> e.undefined_type(type_sign@)),
            },
    {
        match self.position(type_sign) {
            Some(i) => {
                proof {
                    lemma_one_place(
                        self.names(),
                        i as int,
                        type_index(self.names(), type_sign@),
                    );
                }
                self.types[i].factory.create(type_sign)
            },
            None => Err(Error::UndefinedDataType(type_sign.to_owned())),
        }
    }

    /// The registered names, in their order.
    #[inline]
    pub fn all(&self) -> (names: Vec<&str>)
        ensures
            names@.len() == self.names().len(),
            forall|i: int| 0 <= i < names@.len() ==> (#[trigger] names@[i])@ == self.names()[i],
    {
        let mut names: Vec<&str> = Vec::new();
        let mut i: usize = 0;
        while i < self.types.len()
            invariant
                i <= self.types@.len(),
                names@.len() == i,
                forall|j: int| 0 <= j < i ==> (#[trigger] names@[j])@ == self.types@[j].name@,
            decreases self.types@.len() - i,
        {
            names.push(self.types[i].name.as_str());
            i = i + 1;
        }
        names
    }
}

/// Registry of functions: bodies by signature.
pub struct FuncRegistry {
    funcs: Vec<FuncEntry>,
}

impl FuncRegistry {
    /// The registered signatures with their bodies, in the order in which
    /// they were added.
    pub closed spec fn entries(&self) -> Seq<FuncEntry> {
        self.funcs@
    }

    /// What holds of every registry: no signature stands twice.
    pub open spec fn wf(&self) -> bool {
        signs_differ(self.entries())
    }

    /// The empty registry.
    pub fn new() -> (reg: FuncRegistry)
        ensures
            reg.wf(),
            reg.entries() == Seq::<FuncEntry>::empty(),
    {
        FuncRegistry { funcs: Vec::new() }
    }

    /// Place of the function `name` of the kind `fn_kind` that takes
    /// arguments of exactly the types `arg_types`, where it is registered.
    pub fn index_of(&self, name: &str, arg_types: &Vec<Ty>, fn_kind: FnKind) -> (r: Option<usize>)
        requires
            self.wf(),
        ensures
            match r {
                Some(i) => has_func(
                    self.entries(),
                    sign_view(name@, arg_types@, fn_kind),
                ) && i == func_index(
                    self.entries(),
                    sign_view(name@, arg_types@, fn_kind),
                ),
                None => !has_func(
                    self.entries(),
                    sign_view(name@, arg_types@, fn_kind),
                ),
            },
    {
        let r = self.position(name, arg_types, fn_kind);
        proof {
            if r is Some {
                let sign = sign_view(name@, arg_types@, fn_kind);
                let j = func_index(self.entries(), sign);
                assert(self.entries()[j].sign@ == self.entries()[r->0 as int].sign@);
            }
        }
        r
    }

    /// Place of the function `name` of the kind `fn_kind` that takes
    /// arguments of the types `arg_types`, where it is registered.
    fn position(&self, name: &str, arg_types: &Vec<Ty>, fn_kind: FnKind) -> (r: Option<usize>)
        ensures
            match r {
                Some(i) => i < self.entries().len() && self.entries()[i as int].sign@
                    == sign_view(name@, arg_types@, fn_kind),
                None => !has_func(
                    self.entries(),
                    sign_view(name@, arg_types@, fn_kind),
                ),
            },
    {
        let mut i: usize = 0;
        while i < self.funcs.len()
            invariant
                i <= self.funcs@.len(),
                forall|j: int|
                    0 <= j < i ==> (#[trigger] self.funcs@[j]).sign@
                        != sign_view(name@, arg_types@, fn_kind),
            decreases self.funcs@.len() - i,
        {
            if self.funcs[i].sign.matches(name, arg_types, fn_kind) {
                return Some(i);
            }
            i = i + 1;
        }
        None
    }

    /// Registers the body `func.1` under the signature `func.0`. Fails with
    /// `DuplicatedFuncSign`, and changes nothing, where the signature is
    /// taken.
    #[inline]
    pub fn add(&mut self, func: (FuncSignature, FuncBody)) -> (r: Void)
        requires
            old(self).wf(),
        ensures
            final(self).wf(),
            match r {
                Ok(_) => !has_func(old(self).entries(), func.0@),
                Err(e) => has_func(old(self).entries(), func.0@) && e is DuplicatedFuncSign,
            },
            final(self).entries() == func_added(
                old(self).entries(),
                FuncEntry { sign: func.0, body: func.1 },
            ),
    {
        let found = self.position(func.0.name(), func.0.arg_types(), func.0.fn_kind());
        proof {
            lemma_func_added(old(self).entries(), FuncEntry { sign: func.0, body: func.1 });
        }
        match found {
            Some(_) => Err(Error::DuplicatedFuncSign),
            None => {
                self.funcs.push(FuncEntry { sign: func.0, body: func.1 });
                Ok(())
            },
        }
    }

    /// The body registered under exactly the signature `fn_sign`.
    #[inline]
    pub fn find(&self, fn_sign: &FuncSignature) -> (r: Option<&FuncBody>)
        requires
            self.wf(),
        ensures
            match r {
                Some(body) => has_func(self.entries(), fn_sign@) && *body
                    == self.entries()[func_index(self.entries(), fn_sign@)].body,
                None => !has_func(self.entries(), fn_sign@),
            },
    {
        self.find_by(fn_sign.name(), fn_sign.arg_types(), fn_sign.fn_kind())
    }

    /// The body registered under exactly the signature of the function `name`
    /// of the kind `fn_kind` that takes arguments of the types `arg_types`.
    pub fn find_by(&self, name: &str, arg_types: &Vec<Ty>, fn_kind: FnKind) -> (r: Option<
        &FuncBody,
    >)
        requires
            self.wf(),
        ensures
            match r {
                Some(body) => has_func(
                    self.entries(),
                    sign_view(name@, arg_types@, fn_kind),
                ) && *body == self.entries()[func_index(
                    self.entries(),
                    sign_view(name@, arg_types@, fn_kind),
                )].body,
                None => !has_func(
                    self.entries(),
                    sign_view(name@, arg_types@, fn_kind),
                ),
            },
    {
        match self.position(name, arg_types, fn_kind) {
            Some(i) => {
                proof {
                    let sign = sign_view(name@, arg_types@, fn_kind);
                    let j = func_index(self.entries(), sign);
                    assert(self.entries()[j].sign@ == self.entries()[i as int].sign@);
                }
                Some(&self.funcs[i].body)
            },
            None => None,
        }
    }
}

/// Registry of the sources that rows are read from.
pub struct InputSourceRegistry {
    registry: Vec<String>,
}

impl InputSourceRegistry {
    /// The names under which a source is registered.
    pub closed spec fn names(&self) -> Seq<String> {
        self.registry@
    }

    /// The empty registry.
    pub fn new() -> (reg: InputSourceRegistry)
        ensures
            reg.names() == Seq::<String>::empty(),
    {
        InputSourceRegistry { registry: Vec::new() }
    }
}

/// The catalog: what the loaded plugins brought.
pub struct PluginManager<F: TypeFactory> {
    pkgs: Vec<String>,
    type_registry: TypeRegistry<F>,
    func_registry: FuncRegistry,
    src_reg: InputSourceRegistry,
}

impl<F: TypeFactory> PluginManager<F> {
    /// The registry of types.
    pub closed spec fn types(&self) -> TypeRegistry<F> {
        self.type_registry
    }

    /// The registry of functions.
    pub closed spec fn funcs(&self) -> FuncRegistry {
        self.func_registry
    }

    /// What holds of every catalog: its registries are well formed.
    pub open spec fn wf(&self) -> bool {
        self.types().wf() && self.funcs().wf()
    }

    /// The empty catalog.
    pub fn new() -> (mgr: PluginManager<F>)
        ensures
            mgr.wf(),
            mgr.types().names() == Seq::<Seq<char>>::empty(),
            mgr.funcs().entries() == Seq::<FuncEntry>::empty(),
    {
        PluginManager {
            pkgs: Vec::new(),
            type_registry: TypeRegistry::new(),
            func_registry: FuncRegistry::new(),
            src_reg: InputSourceRegistry::new(),
        }
    }

    /// Registers the factory `ty.1` under the name `ty.0`. Fails with
    /// `DuplicatedTypeId`, and changes nothing, where the name is taken.
    #[inline]
    pub fn register_ty(&mut self, ty: (&str, F)) -> (r: Void)
        requires
            old(self).wf(),
        ensures
            final(self).wf(),
            final(self).funcs() == old(self).funcs(),
            match r {
                Ok(_) => !has_type(old(self).types().names(), ty.0@),
                Err(e) => has_type(old(self).types().names(), ty.0@) && e is DuplicatedTypeId,
            },
            final(self).types().names() == names_added(old(self).types().names(), ty.0@),
            final(self).types().factories() == factories_added(
                old(self).types().names(),
                old(self).types().factories(),
                ty.0@,
                ty.1,
            ),
    {
        self.type_registry.add(ty)
    }

    /// Registers the body `func.1` under the signature `func.0`. Fails with
    /// `DuplicatedFuncSign`, and changes nothing, where the signature is
    /// taken.
    #[inline]
    pub fn register_func(&mut self, func: (FuncSignature, FuncBody)) -> (r: Void)
        requires
            old(self).wf(),
        ensures
            final(self).wf(),
            final(self).types() == old(self).types(),
            match r {
                Ok(_) => !has_func(old(self).funcs().entries(), func.0@),
                Err(e) => has_func(old(self).funcs().entries(), func.0@) && e is DuplicatedFuncSign,
            },
            final(self).funcs().entries() == func_added(
                old(self).funcs().entries(),
                FuncEntry { sign: func.0, body: func.1 },
            ),
    {
        self.func_registry.add(func)
    }

    /// The registry of types.
    #[inline]
    pub fn ty_registry(&self) -> (reg: &TypeRegistry<F>)
        ensures
            *reg == self.types(),
    {
        &self.type_registry
    }

    /// The registry of functions.
    #[inline]
    pub fn fn_registry(&self) -> (reg: &FuncRegistry)
        ensures
            *reg == self.funcs(),
    {
        &self.func_registry
    }

    /// Makes the type that `type_sign` names with the factory registered under
    /// that name. Fails with `UndefinedDataType` where none is registered,
    /// and as the factory fails where it makes none.
    #[inline]
    pub fn get_type(&self, type_sign: &str) -> (r: TResult<Ty>)
        requires
            self.wf(),
        ensures
            match r {
                Ok(ty) => type_made(self.types().names(), self.types().factories(), type_sign@)
                    == Some(ty@),
                Err(e) => type_made(self.types().names(), self.types().factories(), type_sign@)
                    is None && (!has_type(self.types().names(), type_sign@) ==> e.undefined_type(
                    type_sign@,
                )),
            },
    {
        self.type_registry.get(type_sign)
    }

    /// The names of the registered types, in their order.
    #[inline]
    pub fn all_types(&self) -> (names: Vec<&str>)
        ensures
            names@.len() == self.types().names().len(),
            forall|i: int|
                0 <= i < names@.len() ==> (#[trigger] names@[i])@ == self.types().names()[i],
    {
        self.type_registry.all()
    }

    /// The body of the scalar function `name` that takes arguments of exactly
    /// the types `types`.
    #[inline]
    pub fn find_func(&self, name: &str, types: &Vec<Ty>) -> (r: Option<&FuncBody>)
        requires
            self.wf(),
        ensures
            match r {
                Some(body) => has_func(
                    self.funcs().entries(),
                    sign_view(name@, types@, FnKind::Scalar),
                ) && *body == self.funcs().entries()[func_index(
                    self.funcs().entries(),
                    sign_view(name@, types@, FnKind::Scalar),
                )].body,
                None => !has_func(
                    self.funcs().entries(),
                    sign_view(name@, types@, FnKind::Scalar),
                ),
            },
    {
        self.func_registry.find_by(name, types, FnKind::Scalar)
    }
}

/// The factory that makes one type, from whatever text.
pub struct ScalarType {
    ty: Ty,
}

impl ScalarType {
    /// The type that the factory makes.
    pub closed spec fn spec_ty(&self) -> TyModel {
        self.ty@
    }

    /// The factory that makes `ty`.
    pub fn new(ty: Ty) -> (factory: ScalarType)
        ensures
            factory.spec_ty() == ty@,
    {
        ScalarType { ty }
    }
}

impl TypeFactory for ScalarType {
    open spec fn made(&self, type_sign: Seq<char>) -> Option<TyModel> {
        Some(self.spec_ty())
    }

    fn create(&self, type_sign: &str) -> (r: TResult<Ty>) {
        Ok(self.ty.clone())
    }
}

/// Registers a scalar function that takes no argument: `name`, with the
/// types that the catalog makes from `raw_arg_types` in its signature and the
/// type that it makes from `raw_ret_type` as that of its result.
///
/// Fails, and changes nothing, where the catalog makes no type from one of
/// the texts, with the error of the first such text, the arguments' before the
/// result's; and with `DuplicatedFuncSign` where the signature is taken.
#[inline]
pub fn register_noarg_fn<F: TypeFactory>(
    plugin_mgr: &mut PluginManager<F>,
    name: &str,
    raw_arg_types: Vec<&str>,
    raw_ret_type: &str,
    fn_impl: Box<dyn NoArgFn>,
) -> (r: Void)
    requires
        old(plugin_mgr).wf(),
    ensures
        final(plugin_mgr).wf(),
        final(plugin_mgr).types() == old(plugin_mgr).types(),
        match r {
            Ok(_) => {
                let names = old(plugin_mgr).types().names();
                let factories = old(plugin_mgr).types().factories();
                let before = old(plugin_mgr).funcs().entries();
                let after = final(plugin_mgr).funcs().entries();
                let sign = FuncSignatureView {
                    name: name@,
                    arg_types: types_made(names, factories, str_views(raw_arg_types@)),
                    fn_kind: FnKind::Scalar,
                };
                &&& all_made(names, factories, str_views(raw_arg_types@))
                &&& type_made(names, factories, raw_ret_type@) is Some
                &&& !has_func(before, sign)
                &&& after.len() == before.len() + 1
                &&& after.drop_last() == before
                &&& after.last().sign@ == sign
                &&& after.last().body.spec_ret_type() == type_made(
                    names,
                    factories,
                    raw_ret_type@,
                )->0
                &&& after.last().body.spec_fn_kind() == FnKind::Scalar
                &&& after.last().body.spec_method() == InvokeMethod::NoArgOp(fn_impl)
            },
            Err(e) => {
                let names = old(plugin_mgr).types().names();
                let factories = old(plugin_mgr).types().factories();
                let raw = str_views(raw_arg_types@);
                &&& final(plugin_mgr).funcs().entries() == old(plugin_mgr).funcs().entries()
                &&& {
                    ||| exists|k: int|
                        {
                            &&& 0 <= k < raw.len()
                            &&& forall|j: int|
                                0 <= j < k ==> (#[trigger] type_made(names, factories, raw[j]))
                                    is Some
                            &&& (#[trigger] type_made(names, factories, raw[k])) is None
                            &&& !has_type(names, raw[k]) ==> e.undefined_type(raw[k])
                        }
                    ||| {
                        &&& all_made(names, factories, raw)
                        &&& type_made(names, factories, raw_ret_type@) is None
                        &&& !has_type(names, raw_ret_type@) ==> e.undefined_type(raw_ret_type@)
                    }
                    ||| {
                        &&& all_made(names, factories, raw)
                        &&& type_made(names, factories, raw_ret_type@) is Some
                        &&& has_func(
                            old(plugin_mgr).funcs().entries(),
                            FuncSignatureView {
                                name: name@,
                                arg_types: types_made(names, factories, raw),
                                fn_kind: FnKind::Scalar,
                            },
                        )
                        &&& e is DuplicatedFuncSign
                    }
                }
            },
        },
{
    let ghost names = plugin_mgr.types().names();
    let ghost factories = plugin_mgr.types().factories();
    let ghost raw = str_views(raw_arg_types@);
    let mut arg_types: Vec<Ty> = Vec::new();
    let mut i: usize = 0;
    while i < raw_arg_types.len()
        invariant
            i <= raw_arg_types@.len(),
            *plugin_mgr == *old(plugin_mgr),
            plugin_mgr.wf(),
            names == plugin_mgr.types().names(),
            factories == plugin_mgr.types().factories(),
            raw == str_views(raw_arg_types@),
            arg_types@.len() == i,
            forall|j: int|
                0 <= j < i ==> (#[trigger] type_made(names, factories, raw[j])) == Some(
                    arg_types@[j]@,
                ),
        decreases raw_arg_types@.len() - i,
    {
        match plugin_mgr.get_type(raw_arg_types[i]) {
            Ok(ty) => {
                arg_types.push(ty);
            },
            Err(e) => {
                proof {
                    assert(raw[i as int] == raw_arg_types@[i as int]@);
                    assert(type_made(names, factories, raw[i as int]) is None);
                }
                return Err(e);
            },
        }
        i = i + 1;
    }
    proof {
        assert(all_made(names, factories, raw));
        assert(models(arg_types@) =~= types_made(names, factories, raw));
    }
    let ret_type = plugin_mgr.get_type(raw_ret_type)?;
    let fn_sig = FuncSignature::new(name.to_owned(), arg_types, FnKind::Scalar);
    let fn_body = FuncBody::new(ret_type, FnKind::Scalar, InvokeMethod::NoArgOp(fn_impl));
    let r = plugin_mgr.register_func((fn_sig, fn_body));
    proof {
        if r is Ok {
            let before = old(plugin_mgr).funcs().entries();
            let after = plugin_mgr.funcs().entries();
            assert(after.drop_last() =~= before);
        }
    }
    r
}

} // verus!
