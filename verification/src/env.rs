//! The environment: the session's table from identifiers to their values.

use vstd::prelude::*;
use core::hash::BuildHasherDefault;
use indexmap::IndexMap;
use rustc_hash::FxHasher;
use crate::error::{Error, ErrorView};
use crate::expression::Expression;
use crate::semantics::{no_bindings, Bindings};
use crate::small_string::SmallString;

verus! {

#[verifier::external_type_specification]
#[verifier::external_body]
#[verifier::reject_recursive_types(K)]
#[verifier::reject_recursive_types(V)]
#[verifier::reject_recursive_types(S)]
pub struct ExIndexMap<K, V, S>(IndexMap<K, V, S>);

#[verifier::external_type_specification]
#[verifier::external_body]
#[verifier::reject_recursive_types(H)]
pub struct ExBuildHasherDefault<H>(BuildHasherDefault<H>);

#[verifier::external_type_specification]
#[verifier::external_body]
pub struct ExFxHasher(FxHasher);

/// The table of an environment.
pub type Table = IndexMap<SmallString, Expression, BuildHasherDefault<FxHasher>>;

/// What a table holds: for every key's text, the tree of the value last
/// inserted under it.
pub uninterp spec fn table_bindings(table: Table) -> Bindings;

/// Calls `IndexMap::default`, which makes a table without entries.
#[verifier::external_body]
fn table_new() -> (r: Table)
    ensures
        table_bindings(r) == no_bindings(),
{
    IndexMap::default()
}

/// Calls `IndexMap::get`, which returns the value stored under a key equal
/// to `key`, if there is one.
#[verifier::external_body]
fn table_get<'a>(
    table: &'a Table,
    key: &SmallString,
) -> (r: Option<&'a Expression>)
    ensures
        r is Some <==> table_bindings(*table).dom().contains(key@),
        r is Some ==> r->Some_0@ == table_bindings(*table)[key@],
{
    table.get(key)
}

/// Calls `IndexMap::insert`, which stores `value` under `key`, in place of
/// the value of an equal key if there is one, and leaves every other entry
/// as it was.
#[verifier::external_body]
fn table_insert(
    table: &mut Table,
    key: SmallString,
    value: Expression,
)
    ensures
        table_bindings(*final(table)) == table_bindings(*old(table)).insert(key@, value@),
{
    let _ = table.insert(key, value);
}

/// How deep evaluation may nest in an environment made by `Env::default`.
pub const DEFAULT_MAX_DEPTH: usize = 1000;

/// The mutable table of bindings of one session, and the depth to which
/// evaluation against it may nest.
pub struct Env {
    bindings: Table,
    max_depth: usize,
}

impl View for Env {
    type V = Bindings;

    closed spec fn view(&self) -> Bindings {
        table_bindings(self.bindings)
    }
}

impl Env {
    pub closed spec fn spec_max_depth(&self) -> usize {
        self.max_depth
    }

    /// The depth to which an evaluation against this environment may nest.
    #[verifier::when_used_as_spec(spec_max_depth)]
    pub fn max_depth(&self) -> (r: usize)
        ensures
            r == self.max_depth(),
    {
        self.max_depth
    }

    /// An environment without bindings that allows `max_depth` levels.
    pub fn with_max_depth(max_depth: usize) -> (env: Env)
        ensures
            env@ == no_bindings(),
            env.max_depth() == max_depth,
    {
        Env { bindings: table_new(), max_depth }
    }

    /// The value bound to `identifier`, or `UnknownSymbol` where there is
    /// none.
    pub fn get_ref(&self, identifier: SmallString) -> (r: Result<&Expression, Error>)
        ensures
            self@.dom().contains(identifier@) ==> r is Ok && r->Ok_0@ == self@[identifier@],
            !self@.dom().contains(identifier@) ==> r is Err && r->Err_0@ == ErrorView::UnknownSymbol(
                identifier@,
            ),
    {
        match table_get(&self.bindings, &identifier) {
            Some(value) => Ok(value),
            None => Err(Error::UnknownSymbol(identifier)),
        }
    }

    /// A copy of the value bound to `identifier`, or `UnknownSymbol` where
    /// there is none.
    pub fn get(&self, identifier: SmallString) -> (r: Result<Expression, Error>)
        ensures
            self@.dom().contains(identifier@) ==> r is Ok && r->Ok_0@ == self@[identifier@],
            !self@.dom().contains(identifier@) ==> r is Err && r->Err_0@ == ErrorView::UnknownSymbol(
                identifier@,
            ),
    {
        match self.get_ref(identifier) {
            Ok(value) => Ok(value.duplicate()),
            Err(error) => Err(error),
        }
    }

    /// Binds `identifier` to `value`, in place of an earlier binding if
    /// there is one.
    pub fn bind(&mut self, identifier: SmallString, value: Expression)
        ensures
            final(self)@ == old(self)@.insert(identifier@, value@),
            final(self).max_depth() == old(self).max_depth(),
    {
        table_insert(&mut self.bindings, identifier, value);
    }
}

impl Default for Env {
    fn default() -> (env: Env)
        ensures
            env@ == no_bindings(),
            env.max_depth() == DEFAULT_MAX_DEPTH,
    {
        Env::with_max_depth(DEFAULT_MAX_DEPTH)
    }
}

} // verus!
