//! The outside collaborators of interpretation: the symbol interner and the
//! instruction stream, both from `symbios`.
use symbios::{SymbiosState, SymbolTable};
use vstd::prelude::*;

verus! {

#[verifier::external_type_specification]
#[verifier::external_body]
pub struct ExSymbolTable(SymbolTable);

#[verifier::external_type_specification]
#[verifier::external_body]
pub struct ExSymbiosState(SymbiosState);

/// The names a symbol table has interned, with their identifiers.
pub uninterp spec fn symbol_ids(t: SymbolTable) -> Map<Seq<char>, u16>;

/// The instruction records of a state, as symbol identifier and parameter
/// count; `None` where a record cannot be read.
pub uninterp spec fn module_views(s: SymbiosState) -> Seq<Option<(u16, usize)>>;

/// Relies on `SymbolTable::resolve_id`: a lookup of the name in the table's
/// name-to-identifier map. The interner hands out one fresh identifier per
/// new name, so no other name shares the identifier found.
#[verifier::external_body]
pub(crate) fn lookup_symbol(table: &SymbolTable, name: &str) -> (r: Option<u16>)
    ensures
        symbol_ids(*table).contains_key(name@) ==> r == Some(symbol_ids(*table)[name@]),
        !symbol_ids(*table).contains_key(name@) ==> r is None,
        r is Some ==> forall|k: Seq<char>|
            #[trigger] symbol_ids(*table).contains_key(k) && k != name@ ==> symbol_ids(
                *table,
            )[k] != r->Some_0,
{
    table.resolve_id(name)
}

/// Relies on `SymbiosState::len`: the number of instruction records.
#[verifier::external_body]
pub(crate) fn module_count(state: &SymbiosState) -> (r: usize)
    ensures
        r == module_views(*state).len(),
{
    state.len()
}

/// Relies on `SymbiosState::get_view`: the record at `index`, reduced to its
/// symbol and parameter count; `None` past the end.
#[verifier::external_body]
pub(crate) fn module_at(state: &SymbiosState, index: usize) -> (r: Option<(u16, usize)>)
    ensures
        index < module_views(*state).len() ==> r == module_views(*state)[index as int],
        index >= module_views(*state).len() ==> r is None,
{
    state.get_view(index).map(|v| (v.sym, v.params.len()))
}

} // verus!
