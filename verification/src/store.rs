//! The collections that hold a file's nodes: arenas of `la_arena` and
//! hash tables of `rustc_hash`. Verus does not look inside them; the
//! functions of this module say what each operation does to a
//! collection's contents, as the source of the two crates shows it.

use crate::comptime::ComptimeResult;
use crate::hir::{
    Assign, AssignId, Comptime, ComptimeId, Expr, ExprId, Lambda, LambdaId, LocalDef, LocalDefId,
    Stmt, StmtId,
};
use crate::text_range::TextRange;
use la_arena::{Arena, ArenaMap, Idx, RawIdx};
use rustc_hash::{FxHashMap, FxHashSet, FxHasher};
use std::hash::BuildHasherDefault;
use vstd::prelude::*;

verus! {

/// `la_arena::Arena`, an arena of values that are named by index. What
/// it holds is not seen from here.
#[verifier::external_type_specification]
#[verifier::external_body]
#[verifier::reject_recursive_types(T)]
pub struct ExArena<T>(Arena<T>);

/// `la_arena::Idx`, the index of a value in an arena.
#[verifier::external_type_specification]
#[verifier::external_body]
#[verifier::reject_recursive_types(T)]
pub struct ExIdx<T>(Idx<T>);

/// `la_arena::ArenaMap`, a table from the indices of an arena to values.
#[verifier::external_type_specification]
#[verifier::external_body]
#[verifier::reject_recursive_types(IDX)]
#[verifier::reject_recursive_types(V)]
pub struct ExArenaMap<IDX, V>(ArenaMap<IDX, V>);

/// `rustc_hash::FxHasher`, the hasher of the hash tables.
#[verifier::external_type_specification]
#[verifier::external_body]
pub struct ExFxHasher(FxHasher);

/// `std::hash::BuildHasherDefault`, which makes the hashers of a table.
#[verifier::external_type_specification]
#[verifier::external_body]
#[verifier::reject_recursive_types(H)]
pub struct ExBuildHasherDefault<H>(BuildHasherDefault<H>);

/// The table from expressions to the ranges of text that they cover.
pub type RangeMap = ArenaMap<Idx<Expr>, TextRange>;

/// A hash table from 32-bit keys to 32-bit values.
pub type IdMap = FxHashMap<u32, u32>;

/// A hash set of 32-bit keys.
pub type IdSet = FxHashSet<u32>;

/// A hash table from the keys of globals to the identifiers of functions.
pub type FunctionIds = FxHashMap<u64, u32>;

/// A hash table from the keys of compile-time blocks to their values;
/// `None` for a block that is being evaluated.
pub type ComptimeValues = FxHashMap<u128, Option<ComptimeResult>>;

/// The values that an arena of expressions holds, in the order of their
/// indices.
pub uninterp spec fn exprs_in(arena: Arena<Expr>) -> Seq<Expr>;

/// `la_arena::Arena::new`: an arena that holds nothing.
#[verifier::external_body]
pub(crate) fn new_exprs() -> (arena: Arena<Expr>)
    ensures
        exprs_in(arena).len() == 0,
{
    Arena::new()
}

/// `la_arena::Arena::alloc`: appends `value` and returns its index, the
/// number of values stored before. The index is 32 bits wide, so an arena
/// that is full to that width is excluded.
#[verifier::external_body]
pub(crate) fn alloc_expr(arena: &mut Arena<Expr>, value: Expr) -> (id: ExprId)
    requires
        exprs_in(*old(arena)).len() <= u32::MAX,
    ensures
        exprs_in(*final(arena)) == exprs_in(*old(arena)).push(value),
        id.0 == exprs_in(*old(arena)).len(),
{
    ExprId(arena.alloc(value).into_raw().into_u32())
}

/// Indexing of `la_arena::Arena`: the value stored at the raw index
/// `id.0`. The arena panics on an index past its end, so that is excluded.
#[verifier::external_body]
pub(crate) fn expr_at(arena: &Arena<Expr>, id: ExprId) -> (value: &Expr)
    requires
        (id.0 as int) < exprs_in(*arena).len(),
    ensures
        *value == exprs_in(*arena)[id.0 as int],
{
    &arena[Idx::from_raw(RawIdx::from_u32(id.0))]
}

/// The values that an arena of statements holds, in the order of their
/// indices.
pub uninterp spec fn stmts_in(arena: Arena<Stmt>) -> Seq<Stmt>;

/// `la_arena::Arena::new`: an arena that holds nothing.
#[verifier::external_body]
pub(crate) fn new_stmts() -> (arena: Arena<Stmt>)
    ensures
        stmts_in(arena).len() == 0,
{
    Arena::new()
}

/// `la_arena::Arena::alloc`: appends `value` and returns its index, the
/// number of values stored before. The index is 32 bits wide, so an arena
/// that is full to that width is excluded.
#[verifier::external_body]
pub(crate) fn alloc_stmt(arena: &mut Arena<Stmt>, value: Stmt) -> (id: StmtId)
    requires
        stmts_in(*old(arena)).len() <= u32::MAX,
    ensures
        stmts_in(*final(arena)) == stmts_in(*old(arena)).push(value),
        id.0 == stmts_in(*old(arena)).len(),
{
    StmtId(arena.alloc(value).into_raw().into_u32())
}

/// Indexing of `la_arena::Arena`: the value stored at the raw index
/// `id.0`. The arena panics on an index past its end, so that is excluded.
#[verifier::external_body]
pub(crate) fn stmt_at(arena: &Arena<Stmt>, id: StmtId) -> (value: &Stmt)
    requires
        (id.0 as int) < stmts_in(*arena).len(),
    ensures
        *value == stmts_in(*arena)[id.0 as int],
{
    &arena[Idx::from_raw(RawIdx::from_u32(id.0))]
}

/// The values that an arena of local definitions holds, in the order of their
/// indices.
pub uninterp spec fn local_defs_in(arena: Arena<LocalDef>) -> Seq<LocalDef>;

/// `la_arena::Arena::new`: an arena that holds nothing.
#[verifier::external_body]
pub(crate) fn new_local_defs() -> (arena: Arena<LocalDef>)
    ensures
        local_defs_in(arena).len() == 0,
{
    Arena::new()
}

/// `la_arena::Arena::alloc`: appends `value` and returns its index, the
/// number of values stored before. The index is 32 bits wide, so an arena
/// that is full to that width is excluded.
#[verifier::external_body]
pub(crate) fn alloc_local_def(arena: &mut Arena<LocalDef>, value: LocalDef) -> (id: LocalDefId)
    requires
        local_defs_in(*old(arena)).len() <= u32::MAX,
    ensures
        local_defs_in(*final(arena)) == local_defs_in(*old(arena)).push(value),
        id.0 == local_defs_in(*old(arena)).len(),
{
    LocalDefId(arena.alloc(value).into_raw().into_u32())
}

/// Indexing of `la_arena::Arena`: the value stored at the raw index
/// `id.0`. The arena panics on an index past its end, so that is excluded.
#[verifier::external_body]
pub(crate) fn local_def_at(arena: &Arena<LocalDef>, id: LocalDefId) -> (value: &LocalDef)
    requires
        (id.0 as int) < local_defs_in(*arena).len(),
    ensures
        *value == local_defs_in(*arena)[id.0 as int],
{
    &arena[Idx::from_raw(RawIdx::from_u32(id.0))]
}

/// The values that an arena of assignments holds, in the order of their
/// indices.
pub uninterp spec fn assigns_in(arena: Arena<Assign>) -> Seq<Assign>;

/// `la_arena::Arena::new`: an arena that holds nothing.
#[verifier::external_body]
pub(crate) fn new_assigns() -> (arena: Arena<Assign>)
    ensures
        assigns_in(arena).len() == 0,
{
    Arena::new()
}

/// `la_arena::Arena::alloc`: appends `value` and returns its index, the
/// number of values stored before. The index is 32 bits wide, so an arena
/// that is full to that width is excluded.
#[verifier::external_body]
pub(crate) fn alloc_assign(arena: &mut Arena<Assign>, value: Assign) -> (id: AssignId)
    requires
        assigns_in(*old(arena)).len() <= u32::MAX,
    ensures
        assigns_in(*final(arena)) == assigns_in(*old(arena)).push(value),
        id.0 == assigns_in(*old(arena)).len(),
{
    AssignId(arena.alloc(value).into_raw().into_u32())
}

/// Indexing of `la_arena::Arena`: the value stored at the raw index
/// `id.0`. The arena panics on an index past its end, so that is excluded.
#[verifier::external_body]
pub(crate) fn assign_at(arena: &Arena<Assign>, id: AssignId) -> (value: &Assign)
    requires
        (id.0 as int) < assigns_in(*arena).len(),
    ensures
        *value == assigns_in(*arena)[id.0 as int],
{
    &arena[Idx::from_raw(RawIdx::from_u32(id.0))]
}

/// The values that an arena of lambdas holds, in the order of their
/// indices.
pub uninterp spec fn lambdas_in(arena: Arena<Lambda>) -> Seq<Lambda>;

/// `la_arena::Arena::new`: an arena that holds nothing.
#[verifier::external_body]
pub(crate) fn new_lambdas() -> (arena: Arena<Lambda>)
    ensures
        lambdas_in(arena).len() == 0,
{
    Arena::new()
}

/// `la_arena::Arena::alloc`: appends `value` and returns its index, the
/// number of values stored before. The index is 32 bits wide, so an arena
/// that is full to that width is excluded.
#[verifier::external_body]
pub(crate) fn alloc_lambda(arena: &mut Arena<Lambda>, value: Lambda) -> (id: LambdaId)
    requires
        lambdas_in(*old(arena)).len() <= u32::MAX,
    ensures
        lambdas_in(*final(arena)) == lambdas_in(*old(arena)).push(value),
        id.0 == lambdas_in(*old(arena)).len(),
{
    LambdaId(arena.alloc(value).into_raw().into_u32())
}

/// Indexing of `la_arena::Arena`: the value stored at the raw index
/// `id.0`. The arena panics on an index past its end, so that is excluded.
#[verifier::external_body]
pub(crate) fn lambda_at(arena: &Arena<Lambda>, id: LambdaId) -> (value: &Lambda)
    requires
        (id.0 as int) < lambdas_in(*arena).len(),
    ensures
        *value == lambdas_in(*arena)[id.0 as int],
{
    &arena[Idx::from_raw(RawIdx::from_u32(id.0))]
}

/// The values that an arena of compile-time blocks holds, in the order of their
/// indices.
pub uninterp spec fn comptimes_in(arena: Arena<Comptime>) -> Seq<Comptime>;

/// `la_arena::Arena::new`: an arena that holds nothing.
#[verifier::external_body]
pub(crate) fn new_comptimes() -> (arena: Arena<Comptime>)
    ensures
        comptimes_in(arena).len() == 0,
{
    Arena::new()
}

/// `la_arena::Arena::alloc`: appends `value` and returns its index, the
/// number of values stored before. The index is 32 bits wide, so an arena
/// that is full to that width is excluded.
#[verifier::external_body]
pub(crate) fn alloc_comptime(arena: &mut Arena<Comptime>, value: Comptime) -> (id: ComptimeId)
    requires
        comptimes_in(*old(arena)).len() <= u32::MAX,
    ensures
        comptimes_in(*final(arena)) == comptimes_in(*old(arena)).push(value),
        id.0 == comptimes_in(*old(arena)).len(),
{
    ComptimeId(arena.alloc(value).into_raw().into_u32())
}

/// Indexing of `la_arena::Arena`: the value stored at the raw index
/// `id.0`. The arena panics on an index past its end, so that is excluded.
#[verifier::external_body]
pub(crate) fn comptime_at(arena: &Arena<Comptime>, id: ComptimeId) -> (value: &Comptime)
    requires
        (id.0 as int) < comptimes_in(*arena).len(),
    ensures
        *value == comptimes_in(*arena)[id.0 as int],
{
    &arena[Idx::from_raw(RawIdx::from_u32(id.0))]
}

/// `la_arena::Arena::len`: the number of values stored.
#[verifier::external_body]
pub(crate) fn count_comptimes(arena: &Arena<Comptime>) -> (n: usize)
    ensures
        n == comptimes_in(*arena).len(),
{
    arena.len()
}

/// The ranges that a table holds, by the raw index of the expression.
pub uninterp spec fn ranges_in(table: RangeMap) -> Map<u32, TextRange>;

/// `la_arena::ArenaMap::new`: a table that holds nothing.
#[verifier::external_body]
pub(crate) fn new_ranges() -> (table: RangeMap)
    ensures
        forall|key: u32| !ranges_in(table).contains_key(key),
{
    ArenaMap::new()
}

/// `la_arena::ArenaMap::insert`: sets the entry of `id` to `range`. The
/// table grows to `id.0 + 1` slots, which must be a `usize`.
#[verifier::external_body]
pub(crate) fn insert_range(table: &mut RangeMap, id: ExprId, range: TextRange)
    requires
        id.0 < u32::MAX,
    ensures
        ranges_in(*final(table)) == ranges_in(*old(table)).insert(id.0, range),
{
    table.insert(Idx::from_raw(RawIdx::from_u32(id.0)), range);
}

/// `la_arena::ArenaMap::get`: the entry of `id`, if the table has one.
#[verifier::external_body]
pub(crate) fn range_at(table: &RangeMap, id: ExprId) -> (range: Option<TextRange>)
    ensures
        range == (if ranges_in(*table).contains_key(id.0) {
            Some(ranges_in(*table)[id.0])
        } else {
            None
        }),
{
    table.get(Idx::from_raw(RawIdx::from_u32(id.0))).copied()
}

/// `FxHashMap::default`: an empty table.
#[verifier::external_body]
pub(crate) fn new_id_map() -> (table: IdMap)
    ensures
        forall|key: u32| !table@.contains_key(key),
{
    FxHashMap::default()
}

/// `HashMap::insert` with the hasher of `rustc_hash`: sets the entry of
/// `key` to `value`.
#[verifier::external_body]
pub(crate) fn id_map_insert(table: &mut IdMap, key: u32, value: u32)
    ensures
        final(table)@ == old(table)@.insert(key, value),
{
    table.insert(key, value);
}

/// `HashMap::get` with the hasher of `rustc_hash`: the entry of `key`, if
/// the table has one.
#[verifier::external_body]
pub(crate) fn id_map_get(table: &IdMap, key: u32) -> (value: Option<u32>)
    ensures
        value == (if table@.contains_key(key) {
            Some(table@[key])
        } else {
            None
        }),
{
    table.get(&key).copied()
}

/// `FxHashSet::default`: an empty set.
#[verifier::external_body]
pub(crate) fn new_id_set() -> (set: IdSet)
    ensures
        forall|key: u32| !set@.contains(key),
{
    FxHashSet::default()
}

/// `HashSet::insert` with the hasher of `rustc_hash`: adds `key`.
#[verifier::external_body]
pub(crate) fn id_set_insert(set: &mut IdSet, key: u32)
    ensures
        final(set)@ == old(set)@.insert(key),
{
    set.insert(key);
}

/// `HashSet::contains` with the hasher of `rustc_hash`.
#[verifier::external_body]
pub(crate) fn id_set_contains(set: &IdSet, key: u32) -> (found: bool)
    ensures
        found == set@.contains(key),
{
    set.contains(&key)
}

/// `HashSet::iter` with the hasher of `rustc_hash`: every key of the set
/// once, in an order that the set chooses.
#[verifier::external_body]
pub(crate) fn id_set_keys(set: &IdSet) -> (keys: Vec<u32>)
    ensures
        forall|i: int| 0 <= i < keys@.len() ==> set@.contains(#[trigger] keys@[i]),
        forall|i: int, j: int| 0 <= i < j < keys@.len() ==> keys@[i] != keys@[j],
        forall|key: u32| set@.contains(key) ==> keys@.contains(key),
{
    set.iter().copied().collect()
}

/// `FxHashMap::default`: an empty table.
#[verifier::external_body]
pub(crate) fn new_function_ids() -> (table: FunctionIds)
    ensures
        forall|key: u64| !table@.contains_key(key),
{
    FxHashMap::default()
}

/// `HashMap::insert` with the hasher of `rustc_hash`: sets the entry of
/// `key` to `value`.
#[verifier::external_body]
pub(crate) fn function_ids_insert(table: &mut FunctionIds, key: u64, value: u32)
    ensures
        final(table)@ == old(table)@.insert(key, value),
{
    table.insert(key, value);
}

/// `HashMap::get` with the hasher of `rustc_hash`: the entry of `key`, if
/// the table has one.
#[verifier::external_body]
pub(crate) fn function_ids_get(table: &FunctionIds, key: u64) -> (value: Option<u32>)
    ensures
        value == (if table@.contains_key(key) {
            Some(table@[key])
        } else {
            None
        }),
{
    table.get(&key).copied()
}

/// `FxHashMap::default`: an empty table.
#[verifier::external_body]
pub(crate) fn new_comptime_values() -> (table: ComptimeValues)
    ensures
        forall|key: u128| !table@.contains_key(key),
{
    FxHashMap::default()
}

/// `HashMap::insert` with the hasher of `rustc_hash`: sets the entry of
/// `key` to `value`.
#[verifier::external_body]
pub(crate) fn comptime_values_insert(
    table: &mut ComptimeValues,
    key: u128,
    value: Option<ComptimeResult>,
)
    ensures
        final(table)@ == old(table)@.insert(key, value),
{
    table.insert(key, value);
}

/// `HashMap::get` with the hasher of `rustc_hash`: the entry of `key`, if
/// the table has one.
#[verifier::external_body]
pub(crate) fn comptime_values_get(table: &ComptimeValues, key: u128) -> (value: Option<
    &Option<ComptimeResult>,
>)
    ensures
        match value {
            Some(value) => table@.contains_key(key) && *value == table@[key],
            None => !table@.contains_key(key),
        },
{
    table.get(&key)
}

} // verus!
