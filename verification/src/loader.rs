//! Classification of a dynamic-library load attempt.
//!
//! Opening the library, resolving its entry symbol and calling the entry
//! point are foreign, blocking work that the embedding layer performs. This
//! module owns the decision the loader makes afterwards: which of the three
//! stages failed first, and hence which error the load attempt reports. A
//! record is registered only when every stage succeeded.

use vstd::prelude::*;

verus! {

/// Why a load attempt failed. Fatal to that attempt only: nothing was
/// registered, and the caller may try again.
#[derive(Clone, Copy, Debug, PartialEq, Eq, Structural)]
pub enum LoadError {
    /// The library file was missing or could not be opened.
    FileNotFound,
    /// The library opened, but the well-known entry symbol was not exported.
    SymbolNotFound,
    /// The entry symbol resolved, but calling it returned a null factory.
    EntryReturnedNull,
}

/// The loader's verdict on a load attempt, from the outcome of its three
/// stages in order: did the library open, did the entry symbol resolve, and
/// did the entry call return a non-null factory. The first stage that failed
/// names the error; a load succeeds exactly when all three stages did.
pub fn load_outcome(library_opened: bool, symbol_resolved: bool, factory_obtained: bool) -> (r:
    Result<(), LoadError>)
    ensures
        !library_opened ==> r == Err::<(), LoadError>(LoadError::FileNotFound),
        library_opened && !symbol_resolved ==> r == Err::<(), LoadError>(
            LoadError::SymbolNotFound,
        ),
        library_opened && symbol_resolved && !factory_obtained ==> r == Err::<(), LoadError>(
            LoadError::EntryReturnedNull,
        ),
        library_opened && symbol_resolved && factory_obtained ==> r == Ok::<(), LoadError>(()),
        r is Ok <==> library_opened && symbol_resolved && factory_obtained,
{
    if !library_opened {
        Err(LoadError::FileNotFound)
    } else if !symbol_resolved {
        Err(LoadError::SymbolNotFound)
    } else if !factory_obtained {
        Err(LoadError::EntryReturnedNull)
    } else {
        Ok(())
    }
}

} // verus!
