//! Safety layer for a host embedding a scripting-language virtual machine.
//!
//! The interpreter state — heap, GC arena, symbol table, global variables,
//! last-error slot — is modelled explicitly in [`interp::Artichoke`].  On top
//! of it sit the value-handle abstraction ([`value::Value`]), the two-way
//! conversion contract ([`convert::Convert`] and [`convert::TryConvert`]),
//! the protected call dispatch ([`value::Value::funcall`]) that turns the
//! VM's abort-current-call signalling into a classified result, and the
//! interpreter-global capture-state manager ([`regexp::method`]).

use vstd::prelude::*;

pub mod convert;
pub mod digits;
pub mod interp;
pub mod regexp;
pub mod types;
pub mod value;

verus! {

/// Max argument count for function calls including initialize and yield.
pub const MRB_FUNCALL_ARGC_MAX: usize = 16;

/// Errors arising from the call boundary between the host and the VM.
///
/// Every outcome of a protected call is classified into exactly one of
/// success or these variants; none may go unclassified.
#[derive(Debug, Clone, PartialEq, Eq)]
pub enum ArtichokeError {
    /// A VM value could not be converted to the requested host type.
    ConvertToRust(crate::types::Ruby),
    /// A script-level exception, surfaced with its description intact.
    Exec(String),
    /// The argument list exceeded the VM's native call-argument limit.
    TooManyArgs { given: usize, max: usize },
    /// The VM recorded an error, but the error-reporting channel itself
    /// could not be read; the tag of the value found in the slot is kept
    /// as a diagnostic.
    UnableToExtract(crate::types::Ruby),
    /// A returned value carried the VM-internal "unreachable" tag and must
    /// not be touched further.
    UnreachableValue,
}

/// Construct a fresh interpreter with empty heap, arena, symbol table and
/// global-variable table.
pub fn interpreter() -> (r: Result<crate::interp::Artichoke, ArtichokeError>)
    ensures
        r matches Ok(interp) && interp.wf() && interp.heap@.len() == 0
            && interp.arena@.len() == 0 && interp.symbols@.len() == 0
            && interp.globals@.len() == 0 && interp.exc is None
            && interp.most_recent is None
            && interp.num_set_regexp_capture_globals == 0,
{
    Ok(crate::interp::Artichoke::new())
}

} // verus!
