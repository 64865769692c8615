//! The type arguments and arguments of a script function.
use crate::args::ArgWithTypeVec;
use crate::error::ArgError;
use crate::type_args::{tag_of, TypeArgVec, TypeTag};
use vstd::prelude::*;

verus! {

/// Arguments for script functions.
pub struct ScriptFunctionArguments {
    /// Type arguments.
    pub type_arg_vec: TypeArgVec,
    /// Function arguments.
    pub arg_vec: ArgWithTypeVec,
}

impl ScriptFunctionArguments {
    /// The on-chain tags of the type arguments, in order; fails when one of
    /// them has none.
    pub fn type_args(&self) -> (r: Result<Vec<TypeTag>, ArgError>)
        ensures
            match r {
                Ok(v) => v@.len() == self.type_arg_vec.type_args@.len() && forall|i: int|
                    0 <= i < v@.len() ==> tag_of(#[trigger] self.type_arg_vec.type_args@[i]@)
                        == Some(v@[i]),
                Err(ArgError::TypeConversion) => exists|i: int|
                    0 <= i < self.type_arg_vec.type_args@.len() && tag_of(
                        #[trigger] self.type_arg_vec.type_args@[i]@,
                    ) is None,
                Err(_) => false,
            },
    {
        let ts = &self.type_arg_vec.type_args;
        let mut out: Vec<TypeTag> = Vec::new();
        let mut i: usize = 0;
        while i < ts.len()
            invariant
                i <= ts@.len(),
                ts@ == self.type_arg_vec.type_args@,
                out@.len() == i,
                forall|j: int| 0 <= j < i ==> tag_of(#[trigger] ts@[j]@) == Some(out@[j]),
            decreases ts@.len() - i,
        {
            match TypeTag::try_from(&ts[i]) {
                Ok(t) => out.push(t),
                Err(_) => {
                    assert(tag_of(self.type_arg_vec.type_args@[i as int]@) is None);
                    return Err(ArgError::TypeConversion);
                },
            }
            i += 1;
        }
        Ok(out)
    }

    /// The encoded arguments, in order.
    pub fn args(&self) -> (r: Result<Vec<Vec<u8>>, ArgError>)
        ensures
            r matches Ok(v) && v@.len() == self.arg_vec.args@.len() && forall|i: int|
                0 <= i < v@.len() ==> (#[trigger] v@[i])@ == self.arg_vec.args@[i].arg@,
    {
        let xs = &self.arg_vec.args;
        let mut out: Vec<Vec<u8>> = Vec::new();
        let mut i: usize = 0;
        while i < xs.len()
            invariant
                i <= xs@.len(),
                xs@ == self.arg_vec.args@,
                out@.len() == i,
                forall|j: int| 0 <= j < i ==> (#[trigger] out@[j])@ == xs@[j].arg@,
            decreases xs@.len() - i,
        {
            let a = xs[i].arg.clone();
            assert(a@ =~= xs@[i as int].arg@);
            out.push(a);
            i += 1;
        }
        Ok(out)
    }
}

} // verus!
