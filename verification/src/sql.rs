//! The package of the SQL types and functions.

use vstd::prelude::*;
use crate::common::func::{FuncBody, FuncSignature};
use crate::common::plugin::{has_type, names_added, Plugin, PluginManager};
use crate::err::Void;
use crate::sql::types::SqlTypes;

pub mod types;

verus! {

/// Name of the package.
pub const PACKAGE_NAME: &'static str = "sql";

/// The package of the SQL types and functions.
pub struct SQLPackage;

impl Plugin<SqlTypes> for SQLPackage {
    fn name(&self) -> (name: &str)
        ensures
            name@ == PACKAGE_NAME@,
    {
        PACKAGE_NAME
    }

    /// Registers the package's types and then its functions. Fails at the
    /// first that the catalog refuses; what was registered before stays.
    fn load(&self, mgr: &mut PluginManager<SqlTypes>) -> (r: Void)
        ensures
            final(mgr).types().names() == names_added(old(mgr).types().names(), "int4"@),
            final(mgr).funcs().entries() == old(mgr).funcs().entries(),
            match r {
                Ok(_) => !has_type(old(mgr).types().names(), "int4"@),
                Err(e) => has_type(old(mgr).types().names(), "int4"@) && e is DuplicatedTypeId,
            },
    {
        let mut types = load_types();
        while types.len() > 0
            invariant
                mgr.wf(),
                mgr.funcs().entries() == old(mgr).funcs().entries(),
                types@.len() <= 1,
                types@.len() == 1 ==> types@[0].0@ == "int4"@ && mgr.types().names() == old(
                    mgr,
                ).types().names(),
                types@.len() == 0 ==> mgr.types().names() == names_added(
                    old(mgr).types().names(),
                    "int4"@,
                ) && !has_type(old(mgr).types().names(), "int4"@),
            decreases types@.len(),
        {
            let ty = types.remove(0);
            mgr.register_ty(ty)?;
        }
        let mut funcs = load_funcs();
        while funcs.len() > 0
            invariant
                mgr.wf(),
                funcs@.len() == 0,
                mgr.funcs().entries() == old(mgr).funcs().entries(),
                mgr.types().names() == names_added(old(mgr).types().names(), "int4"@),
                !has_type(old(mgr).types().names(), "int4"@),
            decreases funcs@.len(),
        {
            let func = funcs.remove(0);
            mgr.register_func(func)?;
        }
        Ok(())
    }
}

/// The types of the package: each name with the factory that makes the type.
pub fn load_types() -> (types: Vec<(&'static str, SqlTypes)>)
    ensures
        types@.len() == 1,
        types@[0].0@ == "int4"@,
{
    let mut types: Vec<(&'static str, SqlTypes)> = Vec::new();
    types.push(("int4", SqlTypes));
    types
}

/// The functions of the package: there is none yet.
pub fn load_funcs() -> (funcs: Vec<(FuncSignature, FuncBody)>)
    ensures
        funcs@.len() == 0,
{
    Vec::new()
}

} // verus!
