//! Lowering of a file's syntax tree into its bodies.

use crate::body::{
    lemma_expr_keeps_nested, lemma_expr_keeps_uids, lemma_expr_keeps_wf, lemma_extended_refl,
    lemma_extended_trans, lemma_names_stay_known, lemma_side_arenas_keep_nested,
    lemma_side_arenas_keep_wf, lemma_stmt_admitted_stable, lemma_stmt_within_stable,
    lemma_tables_keep_wf, prefix_of, Bodies, BodiesView,
};
use crate::hir::{
    field_names_below, Assign, AssignId, Comptime, ComptimeId, DiagnosticKindView, Expr, ExprId,
    LambdaId, LocalDef, LocalDefId, LoweringDiagnostic, LoweringDiagnosticKind, PrimitiveTy, StmtId,
};
use crate::host::{has_capy_extension, replace_separators, Host};
use crate::index::Index;
use crate::interner::{Interner, Key};
use crate::literal::{parse_int_literal, unescape_components, Unescaped};
use crate::lower_spec::{
    escape_reports, local_in, lowered_array_size, lowered_char_literal, lowered_expr,
    lowered_fields, lowered_global, lowered_globals, lowered_import, lowered_int_literal,
    lowered_items, lowered_lambda, lowered_params, lowered_present, lowered_present_ty, lowered_raw,
    lowered_stmt, lowered_stmts, lowered_string_literal, lowered_ty, EnvView, LowerState,
};
use crate::names::{FileName, Name, NameWithRange};
use crate::nesting::{
    covered, lemma_inside, lemma_inside_ty, nested, nested_global, nested_lambda, nested_slot,
    nested_stmt, nested_ty_slot, slot_range, ty_range,
};
use crate::store::{id_map_get, id_map_insert, new_id_map, IdMap};
use crate::syntax;
use crate::text_range::TextRange;
use crate::uid::UIDGenerator;
use crate::weight::{
    lemma_fields_weight, lemma_items_weight, lemma_params_weight, lemma_stmts_weight,
    weight_of_expr, weight_of_fields, weight_of_global, weight_of_globals, weight_of_items,
    weight_of_lambda, weight_of_params, weight_of_raw, weight_of_stmt, weight_of_stmts,
    weight_of_ty,
};
use vstd::prelude::*;

verus! {

/// What stays the same while a file is lowered.
pub(crate) struct Env<'a> {
    pub file_name: &'a str,
    pub index: &'a Index,
    pub host: &'a Host,
}

impl<'a> View for Env<'a> {
    type V = EnvView;

    closed spec fn view(&self) -> EnvView {
        EnvView { file_name: self.file_name@, index: self.index@, host: self.host@ }
    }
}

/// What changes while a file is lowered.
pub(crate) struct Ctx {
    pub bodies: Bodies,
    pub uid_gen: UIDGenerator,
    pub interner: Interner,
    pub diagnostics: Vec<LoweringDiagnostic>,
    pub scopes: Vec<IdMap>,
    /// From the key of a parameter's name to the parameter's position.
    pub params: IdMap,
    /// The ranges of the parameters of the enclosing lambda, by position.
    pub param_ranges: Vec<TextRange>,
    /// The first unique identifier that was free when lowering began.
    pub first_uid: Ghost<u32>,
}

/// The table of parameters: from a name's key to the position and the
/// range of the parameter.
pub open spec fn params_view(positions: Map<u32, u32>, ranges: Seq<TextRange>) -> Map<
    u32,
    (u32, TextRange),
> {
    Map::new(
        |key: u32| positions.contains_key(key),
        |key: u32| (positions[key], ranges[positions[key] as int]),
    )
}

impl View for Ctx {
    type V = LowerState;

    closed spec fn view(&self) -> LowerState {
        LowerState {
            bodies: self.bodies@,
            next_uid: self.uid_gen.next,
            interner: self.interner@,
            diagnostics: self.diagnostics@.map_values(|d: LoweringDiagnostic| d@),
            scopes: self.scopes@.map_values(|scope: IdMap| scope@),
            params: params_view(self.params@, self.param_ranges@),
        }
    }
}

/// The state has room for `weight` more nodes in each arena, and for as
/// many more names and unique identifiers.
pub open spec fn room(st: LowerState, weight: nat) -> bool {
    &&& st.bodies.exprs.len() + weight <= u32::MAX
    &&& st.bodies.stmts.len() + weight <= u32::MAX
    &&& st.bodies.local_defs.len() + weight <= u32::MAX
    &&& st.bodies.assigns.len() + weight <= u32::MAX
    &&& st.bodies.lambdas.len() + weight <= u32::MAX
    &&& st.bodies.comptimes.len() + weight <= u32::MAX
    &&& st.next_uid + weight <= u32::MAX
    &&& st.interner.len() + weight <= u32::MAX
}

/// `new` comes after `old`: it holds what `old` held, and at most
/// `weight` more in each arena, of names, and of unique identifiers.
pub open spec fn grows(old: LowerState, new: LowerState, weight: nat) -> bool {
    &&& old.bodies.extended_by(new.bodies)
    &&& new.bodies.exprs.len() <= old.bodies.exprs.len() + weight
    &&& new.bodies.stmts.len() <= old.bodies.stmts.len() + weight
    &&& new.bodies.local_defs.len() <= old.bodies.local_defs.len() + weight
    &&& new.bodies.assigns.len() <= old.bodies.assigns.len() + weight
    &&& new.bodies.lambdas.len() <= old.bodies.lambdas.len() + weight
    &&& new.bodies.comptimes.len() <= old.bodies.comptimes.len() + weight
    &&& old.next_uid <= new.next_uid <= old.next_uid + weight
    &&& prefix_of(old.interner, new.interner)
    &&& new.interner.len() <= old.interner.len() + weight
    &&& prefix_of(old.diagnostics, new.diagnostics)
}

/// `new` comes after `old` within one global: it has grown by at most
/// `weight`, and the tables of globals are as they were.
pub open spec fn step(old: LowerState, new: LowerState, weight: nat) -> bool {
    &&& grows(old, new, weight)
    &&& new.bodies.global_bodies == old.bodies.global_bodies
    &&& new.bodies.global_tys == old.bodies.global_tys
}

pub proof fn lemma_grows_trans(a: LowerState, b: LowerState, c: LowerState, w1: nat, w2: nat)
    requires
        a.bodies.wf(),
        grows(a, b, w1),
        grows(b, c, w2),
    ensures
        grows(a, c, w1 + w2),
{
    lemma_extended_trans(a.bodies, b.bodies, c.bodies);
}

pub proof fn lemma_step_trans(a: LowerState, b: LowerState, c: LowerState, w1: nat, w2: nat)
    requires
        a.bodies.wf(),
        step(a, b, w1),
        step(b, c, w2),
    ensures
        step(a, c, w1 + w2),
{
    lemma_extended_trans(a.bodies, b.bodies, c.bodies);
}

/// The names that were known are still known after a step that keeps
/// what the bodies and the diagnostics held, where what the step added
/// holds only names of the interner.
proof fn lemma_names_kept(old: LowerState, new: LowerState)
    requires
        old.names_known(),
        old.interner.len() <= new.interner.len(),
        prefix_of(old.bodies.exprs, new.bodies.exprs),
        prefix_of(old.bodies.lambdas, new.bodies.lambdas),
        prefix_of(old.diagnostics, new.diagnostics),
        forall|i: int|
            old.bodies.exprs.len() <= i < new.bodies.exprs.len() ==> (
            #[trigger] new.bodies.exprs[i]).names_below(new.interner.len()),
        forall|i: int|
            old.bodies.lambdas.len() <= i < new.bodies.lambdas.len() ==> (
            #[trigger] new.bodies.lambdas[i]).names_below(new.interner.len()),
        forall|i: int|
            old.diagnostics.len() <= i < new.diagnostics.len() ==> (
            #[trigger] new.diagnostics[i]).names_below(new.interner.len()),
        forall|key: u32|
            #[trigger] new.bodies.global_bodies.contains_key(key)
                ==> old.bodies.global_bodies.contains_key(key) || (key as nat)
                < new.interner.len(),
        forall|key: u32|
            #[trigger] new.bodies.global_tys.contains_key(key)
                ==> old.bodies.global_tys.contains_key(key) || (key as nat) < new.interner.len(),
        forall|key: u32|
            #[trigger] new.bodies.imports.contains(key) ==> old.bodies.imports.contains(key) || (
            key as nat) < new.interner.len(),
    ensures
        new.names_known(),
{
    lemma_names_stay_known(old.bodies, old.interner.len(), new.interner.len());
    assert forall|i: int| 0 <= i < new.bodies.exprs.len() implies (
    #[trigger] new.bodies.exprs[i]).names_below(new.interner.len()) by {
        if i < old.bodies.exprs.len() {
            assert(new.bodies.exprs[i] == old.bodies.exprs[i]);
        }
    }
    assert forall|i: int| 0 <= i < new.bodies.lambdas.len() implies (
    #[trigger] new.bodies.lambdas[i]).names_below(new.interner.len()) by {
        if i < old.bodies.lambdas.len() {
            assert(new.bodies.lambdas[i] == old.bodies.lambdas[i]);
        }
    }
    assert forall|i: int| 0 <= i < new.diagnostics.len() implies (
    #[trigger] new.diagnostics[i]).names_below(new.interner.len()) by {
        if i < old.diagnostics.len() {
            assert(new.diagnostics[i] == old.diagnostics[i]);
            assert(old.diagnostics[i].names_below(old.interner.len()));
        }
    }
}

/// Every parameter's position is a place of `ranges`.
pub open spec fn positions_in(positions: Map<u32, u32>, ranges: Seq<TextRange>) -> bool {
    forall|key: u32|
        positions.contains_key(key) ==> (#[trigger] positions[key] as int) < ranges.len()
}

/// Every local of the scopes is one of the first `count` definitions.
pub open spec fn locals_in(scopes: Seq<IdMap>, count: nat) -> bool {
    forall|i: int, key: u32|
        0 <= i < scopes.len() && (#[trigger] scopes[i]@.contains_key(key)) ==> (
        scopes[i]@[key] as int) < count
}

impl Ctx {
    spec fn inv(&self) -> bool {
        &&& self@.bodies.wf()
        &&& self.interner.wf()
        &&& positions_in(self.params@, self.param_ranges@)
        &&& locals_in(self.scopes@, self@.bodies.local_defs.len())
        &&& self.first_uid@ <= self.uid_gen.next
        &&& self@.bodies.uids_in_order(self.first_uid@, self.uid_gen.next)
        &&& self@.names_known()
    }

    fn alloc_expr(&mut self, expr: Expr, range: TextRange) -> (id: ExprId)
        requires
            old(self).inv(),
            old(self)@.bodies.admits(expr@),
            old(self)@.bodies.takes_uid(expr@, old(self).first_uid@, old(self)@.next_uid),
            old(self)@.bodies.exprs.len() < u32::MAX,
            expr@.names_below(old(self)@.interner.len()),
        ensures
            (final(self)@, id) == old(self)@.alloc_expr(expr@, range),
            final(self).inv(),
            step(old(self)@, final(self)@, 1),
            (id.0 as int) < final(self)@.bodies.exprs.len(),
            final(self)@.bodies.exprs.len() == old(self)@.bodies.exprs.len() + 1,
            final(self)@.bodies.range_of(id) == Some(range),
            old(self)@.bodies.ranges_nested() && old(self)@.bodies.within(expr@, range)
                ==> final(self)@.bodies.ranges_nested(),
            final(self).first_uid == old(self).first_uid,
    {
        proof {
            lemma_expr_keeps_wf(self@.bodies, expr@, range);
            lemma_expr_keeps_uids(
                self@.bodies,
                expr@,
                range,
                self.first_uid@,
                self.uid_gen.next,
            );
            if self@.bodies.ranges_nested() && self@.bodies.within(expr@, range) {
                lemma_expr_keeps_nested(self@.bodies, expr@, range);
            }
        }
        self.bodies.alloc_expr(expr, range)
    }

    fn alloc_stmt(&mut self, stmt: crate::hir::Stmt) -> (id: StmtId)
        requires
            old(self).inv(),
            old(self)@.bodies.stmts.len() < u32::MAX,
        ensures
            (final(self)@, id) == old(self)@.alloc_stmt(stmt),
            final(self).inv(),
            step(old(self)@, final(self)@, 1),
            old(self)@.bodies.ranges_nested() ==> final(self)@.bodies.ranges_nested(),
            final(self)@.bodies.expr_ranges == old(self)@.bodies.expr_ranges,
            final(self).first_uid == old(self).first_uid,
    {
        proof {
            lemma_side_arenas_keep_wf(self@.bodies, self@.bodies.with_stmt(stmt));
            lemma_names_kept(self@, self@.alloc_stmt(stmt).0);
            if self@.bodies.ranges_nested() {
                lemma_side_arenas_keep_nested(self@.bodies, self@.bodies.with_stmt(stmt));
            }
        }
        self.bodies.alloc_stmt(stmt)
    }

    fn alloc_local_def(&mut self, def: LocalDef) -> (id: LocalDefId)
        requires
            old(self).inv(),
            old(self)@.bodies.local_defs.len() < u32::MAX,
        ensures
            (final(self)@, id) == old(self)@.alloc_local_def(def),
            final(self).inv(),
            step(old(self)@, final(self)@, 1),
            old(self)@.bodies.ranges_nested() ==> final(self)@.bodies.ranges_nested(),
            final(self)@.bodies.expr_ranges == old(self)@.bodies.expr_ranges,
            final(self).first_uid == old(self).first_uid,
    {
        proof {
            lemma_side_arenas_keep_wf(self@.bodies, self@.bodies.with_local_def(def));
            lemma_names_kept(self@, self@.alloc_local_def(def).0);
            if self@.bodies.ranges_nested() {
                lemma_side_arenas_keep_nested(self@.bodies, self@.bodies.with_local_def(def));
            }
        }
        self.bodies.alloc_local_def(def)
    }

    fn alloc_assign(&mut self, assign: Assign) -> (id: AssignId)
        requires
            old(self).inv(),
            old(self)@.bodies.assigns.len() < u32::MAX,
        ensures
            (final(self)@, id) == old(self)@.alloc_assign(assign),
            final(self).inv(),
            step(old(self)@, final(self)@, 1),
            old(self)@.bodies.ranges_nested() ==> final(self)@.bodies.ranges_nested(),
            final(self)@.bodies.expr_ranges == old(self)@.bodies.expr_ranges,
            final(self).first_uid == old(self).first_uid,
    {
        proof {
            lemma_side_arenas_keep_wf(self@.bodies, self@.bodies.with_assign(assign));
            lemma_names_kept(self@, self@.alloc_assign(assign).0);
            if self@.bodies.ranges_nested() {
                lemma_side_arenas_keep_nested(self@.bodies, self@.bodies.with_assign(assign));
            }
        }
        self.bodies.alloc_assign(assign)
    }

    fn alloc_lambda(&mut self, lambda: crate::hir::Lambda) -> (id: LambdaId)
        requires
            old(self).inv(),
            old(self)@.bodies.lambdas.len() < u32::MAX,
            lambda@.names_below(old(self)@.interner.len()),
        ensures
            (final(self)@, id) == old(self)@.alloc_lambda(lambda@),
            final(self).inv(),
            step(old(self)@, final(self)@, 1),
            old(self)@.bodies.ranges_nested() ==> final(self)@.bodies.ranges_nested(),
            final(self)@.bodies.expr_ranges == old(self)@.bodies.expr_ranges,
            final(self).first_uid == old(self).first_uid,
    {
        proof {
            lemma_side_arenas_keep_wf(self@.bodies, self@.bodies.with_lambda(lambda@));
            lemma_names_kept(self@, self@.alloc_lambda(lambda@).0);
            if self@.bodies.ranges_nested() {
                lemma_side_arenas_keep_nested(self@.bodies, self@.bodies.with_lambda(lambda@));
            }
        }
        self.bodies.alloc_lambda(lambda)
    }

    fn alloc_comptime(&mut self, comptime: Comptime) -> (id: ComptimeId)
        requires
            old(self).inv(),
            old(self)@.bodies.comptimes.len() < u32::MAX,
        ensures
            (final(self)@, id) == old(self)@.alloc_comptime(comptime),
            final(self).inv(),
            step(old(self)@, final(self)@, 1),
            old(self)@.bodies.ranges_nested() ==> final(self)@.bodies.ranges_nested(),
            final(self)@.bodies.expr_ranges == old(self)@.bodies.expr_ranges,
            final(self).first_uid == old(self).first_uid,
    {
        proof {
            lemma_side_arenas_keep_wf(self@.bodies, self@.bodies.with_comptime(comptime));
            lemma_names_kept(self@, self@.alloc_comptime(comptime).0);
            if self@.bodies.ranges_nested() {
                lemma_side_arenas_keep_nested(self@.bodies, self@.bodies.with_comptime(comptime));
            }
        }
        self.bodies.alloc_comptime(comptime)
    }

    fn intern(&mut self, text: &str) -> (key: Key)
        requires
            old(self).inv(),
            old(self)@.interner.len() < u32::MAX,
        ensures
            (final(self)@, key) == old(self)@.interned(text@),
            final(self).inv(),
            step(old(self)@, final(self)@, 1),
            (key.0 as int) < final(self)@.interner.len(),
            final(self)@.interner[key.0 as int] == text@,
            final(self)@.bodies == old(self)@.bodies,
            final(self).first_uid == old(self).first_uid,
    {
        proof {
            lemma_extended_refl(self@.bodies);
            lemma_names_kept(self@, self@.interned(text@).0);
        }
        self.interner.intern(text)
    }

    fn diagnose(&mut self, kind: LoweringDiagnosticKind, range: TextRange)
        requires
            old(self).inv(),
            kind@ matches DiagnosticKindView::UndefinedRef { name } ==> (name.0 as int)
                < old(self)@.interner.len(),
        ensures
            final(self)@ == old(self)@.diagnosed(kind@, range),
            final(self).inv(),
            step(old(self)@, final(self)@, 0),
            final(self)@.bodies == old(self)@.bodies,
            final(self).first_uid == old(self).first_uid,
    {
        proof {
            lemma_extended_refl(self@.bodies);
        }
        let diagnostic = LoweringDiagnostic { kind, range };
        self.diagnostics.push(diagnostic);
        assert(final(self)@.diagnostics =~= old(self)@.diagnostics.push(diagnostic@));
    }

    fn diagnose_escapes(&mut self, ranges: &Vec<TextRange>)
        requires
            old(self).inv(),
        ensures
            final(self)@ == old(self)@.diagnosed_escapes(ranges@),
            final(self).inv(),
            step(old(self)@, final(self)@, 0),
            final(self)@.bodies == old(self)@.bodies,
            final(self).first_uid == old(self).first_uid,
    {
        proof {
            lemma_extended_refl(self@.bodies);
        }
        let mut i: usize = 0;
        while i < ranges.len()
            invariant
                i <= ranges@.len(),
                self.inv(),
                self.bodies == old(self).bodies,
                self.first_uid == old(self).first_uid,
                self.uid_gen == old(self).uid_gen,
                self.interner == old(self).interner,
                self.scopes == old(self).scopes,
                self.params == old(self).params,
                self.param_ranges == old(self).param_ranges,
                self@.diagnostics == old(self)@.diagnostics + escape_reports(
                    ranges@.take(i as int),
                ),
            decreases ranges.len() - i,
        {
            let diagnostic = LoweringDiagnostic {
                kind: LoweringDiagnosticKind::InvalidEscape,
                range: ranges[i],
            };
            let ghost before = self@.diagnostics;
            self.diagnostics.push(diagnostic);
            proof {
                assert(self@.diagnostics =~= before.push(diagnostic@));
                assert(escape_reports(ranges@.take(i + 1)) =~= escape_reports(
                    ranges@.take(i as int),
                ).push(diagnostic@));
                assert(self@.diagnostics =~= old(self)@.diagnostics + escape_reports(
                    ranges@.take(i + 1),
                ));
            }
            i = i + 1;
        }
        assert(ranges@.take(ranges@.len() as int) =~= ranges@);
    }

    fn mint(&mut self) -> (uid: u32)
        requires
            old(self).inv(),
            old(self)@.next_uid < u32::MAX,
        ensures
            (final(self)@, uid) == old(self)@.minted(),
            final(self).inv(),
            step(old(self)@, final(self)@, 1),
            final(self)@.bodies == old(self)@.bodies,
            final(self).first_uid == old(self).first_uid,
    {
        proof {
            lemma_extended_refl(self@.bodies);
            lemma_names_kept(self@, self@.minted().0);
        }
        self.uid_gen.generate_unique_id()
    }

    fn enter_scope(&mut self)
        requires
            old(self).inv(),
        ensures
            final(self)@ == old(self)@.entered_scope(),
            final(self).inv(),
            step(old(self)@, final(self)@, 0),
            final(self)@.bodies == old(self)@.bodies,
            final(self).first_uid == old(self).first_uid,
    {
        proof {
            lemma_extended_refl(self@.bodies);
        }
        let scope: IdMap = new_id_map();
        assert(scope@ =~= Map::<u32, u32>::empty());
        self.scopes.push(scope);
        assert(final(self)@.scopes =~= old(self)@.scopes.push(Map::empty()));
    }

    fn leave_scope(&mut self)
        requires
            old(self).inv(),
        ensures
            final(self)@ == old(self)@.left_scope(),
            final(self).inv(),
            step(old(self)@, final(self)@, 0),
            final(self)@.bodies == old(self)@.bodies,
            final(self).first_uid == old(self).first_uid,
    {
        proof {
            lemma_extended_refl(self@.bodies);
        }
        let n: usize = self.scopes.len();
        self.scopes.pop();
        if n > 0 {
            assert(final(self)@.scopes =~= old(self)@.scopes.drop_last());
        } else {
            assert(final(self)@.scopes =~= old(self)@.scopes);
        }
    }

    fn bind_local(&mut self, key: Key, def: LocalDefId)
        requires
            old(self).inv(),
            (def.0 as int) < old(self)@.bodies.local_defs.len(),
        ensures
            final(self)@ == old(self)@.with_local(key, def),
            final(self).inv(),
            step(old(self)@, final(self)@, 0),
            final(self)@.bodies == old(self)@.bodies,
            final(self).first_uid == old(self).first_uid,
    {
        proof {
            lemma_extended_refl(self@.bodies);
        }
        let n: usize = self.scopes.len();
        if n > 0 {
            id_map_insert(&mut self.scopes[n - 1], key.0, def.0);
            assert(final(self)@.scopes =~= old(self)@.scopes.update(
                n - 1,
                old(self)@.scopes.last().insert(key.0, def.0),
            ));
        }
    }

    fn lookup_local(&self, key: Key) -> (def: Option<LocalDefId>)
        requires
            self.inv(),
        ensures
            def == local_in(self@.scopes, key.0),
            def matches Some(def) ==> (def.0 as int) < self@.bodies.local_defs.len(),
    {
        let mut i: usize = self.scopes.len();
        assert(self@.scopes.take(i as int) =~= self@.scopes);
        while i > 0
            invariant
                self.inv(),
                i <= self.scopes@.len(),
                local_in(self@.scopes, key.0) == local_in(self@.scopes.take(i as int), key.0),
            decreases i,
        {
            proof {
                assert(self@.scopes.take(i as int).drop_last() =~= self@.scopes.take(i - 1));
                assert(self@.scopes.take(i as int).last() == self.scopes@[i - 1]@);
            }
            match id_map_get(&self.scopes[i - 1], key.0) {
                Some(raw) => {
                    return Some(LocalDefId(raw));
                },
                None => {},
            }
            i = i - 1;
        }
        None
    }

    fn set_global_ty(&mut self, name: Name, ty: ExprId)
        requires
            old(self).inv(),
            (ty.0 as int) < old(self)@.bodies.exprs.len(),
            (name.0.0 as int) < old(self)@.interner.len(),
        ensures
            final(self)@ == (LowerState {
                bodies: old(self)@.bodies.with_global_ty(name, ty),
                ..old(self)@
            }),
            final(self).inv(),
            grows(old(self)@, final(self)@, 0),
            old(self)@.bodies.ranges_nested() ==> final(self)@.bodies.ranges_nested(),
            final(self)@.bodies.expr_ranges == old(self)@.bodies.expr_ranges,
            final(self).first_uid == old(self).first_uid,
    {
        proof {
            lemma_tables_keep_wf(self@.bodies, name, ty, FileName(Key(0)));
            if self@.bodies.ranges_nested() {
                lemma_side_arenas_keep_nested(
                    self@.bodies,
                    self@.bodies.with_global_ty(name, ty),
                );
            }
        }
        self.bodies.set_global_ty(name, ty);
    }

    fn set_global_body(&mut self, name: Name, body: ExprId)
        requires
            old(self).inv(),
            (body.0 as int) < old(self)@.bodies.exprs.len(),
            !old(self)@.bodies.global_bodies.contains_key(name.0.0),
            (name.0.0 as int) < old(self)@.interner.len(),
        ensures
            final(self)@ == (LowerState {
                bodies: old(self)@.bodies.with_global_body(name, body),
                ..old(self)@
            }),
            final(self).inv(),
            grows(old(self)@, final(self)@, 0),
            old(self)@.bodies.ranges_nested() ==> final(self)@.bodies.ranges_nested(),
            final(self)@.bodies.expr_ranges == old(self)@.bodies.expr_ranges,
            final(self).first_uid == old(self).first_uid,
    {
        proof {
            lemma_tables_keep_wf(self@.bodies, name, body, FileName(Key(0)));
            if self@.bodies.ranges_nested() {
                lemma_side_arenas_keep_nested(
                    self@.bodies,
                    self@.bodies.with_global_body(name, body),
                );
            }
        }
        self.bodies.set_global_body(name, body);
    }

    fn add_import(&mut self, file: FileName)
        requires
            old(self).inv(),
            (file.0.0 as int) < old(self)@.interner.len(),
        ensures
            final(self)@ == (LowerState {
                bodies: old(self)@.bodies.with_import(file),
                ..old(self)@
            }),
            final(self).inv(),
            step(old(self)@, final(self)@, 0),
            old(self)@.bodies.ranges_nested() ==> final(self)@.bodies.ranges_nested(),
            final(self)@.bodies.expr_ranges == old(self)@.bodies.expr_ranges,
            final(self).first_uid == old(self).first_uid,
    {
        proof {
            if self@.bodies.exprs.len() > 0 {
                lemma_tables_keep_wf(self@.bodies, Name(Key(0)), ExprId(0), file);
            } else {
                let new = self@.bodies.with_import(file);
                assert forall|i: int, x: ExprId| #[trigger] new.is_child(i, x) implies (
                x.0 as int) < i by {
                    assert(self@.bodies.is_child(i, x));
                }
            }
            if self@.bodies.ranges_nested() {
                lemma_side_arenas_keep_nested(self@.bodies, self@.bodies.with_import(file));
            }
        }
        self.bodies.add_import(file);
    }

    fn lookup_param(&self, key: Key) -> (param: Option<(u32, TextRange)>)
        requires
            self.inv(),
        ensures
            param == (if self@.params.contains_key(key.0) {
                Some(self@.params[key.0])
            } else {
                None
            }),
    {
        match id_map_get(&self.params, key.0) {
            Some(position) => Some((position, self.param_ranges[position as usize])),
            None => None,
        }
    }
}

/// Lowers the expression in the slot `e`; an empty slot gets an
/// expression of its own, `Missing`.
fn lower_expr(
    ctx: &mut Ctx,
    env: &Env,
    e: &Option<Box<syntax::Expr>>,
    top: bool,
    around: TextRange,
) -> (id: ExprId)
    requires
        old(ctx).inv(),
        room(old(ctx)@, weight_of_expr(*e)),
    ensures
        (final(ctx)@, id) == lowered_expr(env@, old(ctx)@, *e, top, around),
        final(ctx).inv(),
        step(old(ctx)@, final(ctx)@, weight_of_expr(*e)),
        (id.0 as int) < final(ctx)@.bodies.exprs.len(),
        final(ctx)@.bodies.range_of(id) == slot_range(*e, around),
        nested_slot(*e) && old(ctx)@.bodies.ranges_nested() ==> final(ctx)@.bodies.ranges_nested(),
        final(ctx).first_uid == old(ctx).first_uid,
    decreases *e, 0nat,
{
    match e {
        None => ctx.alloc_expr(Expr::Missing, around),
        Some(present) => {
            let raw: Expr = lower_expr_raw(ctx, env, present, top);
            let ghost mid = ctx@;
            let id: ExprId = ctx.alloc_expr(raw, present.range);
            proof {
                lemma_step_trans(old(ctx)@, mid, ctx@, weight_of_raw(**present), 1);
            }
            id
        },
    }
}

/// Lowers the expression of a type annotation.
fn lower_ty(ctx: &mut Ctx, env: &Env, ty: &Option<syntax::Ty>, around: TextRange) -> (id: ExprId)
    requires
        old(ctx).inv(),
        room(old(ctx)@, weight_of_ty(*ty)),
    ensures
        (final(ctx)@, id) == lowered_ty(env@, old(ctx)@, *ty, around),
        final(ctx).inv(),
        step(old(ctx)@, final(ctx)@, weight_of_ty(*ty)),
        (id.0 as int) < final(ctx)@.bodies.exprs.len(),
        final(ctx)@.bodies.range_of(id) == ty_range(*ty, around),
        nested_ty_slot(*ty) && old(ctx)@.bodies.ranges_nested()
            ==> final(ctx)@.bodies.ranges_nested(),
        final(ctx).first_uid == old(ctx).first_uid,
    decreases *ty, 0nat,
{
    match ty {
        None => ctx.alloc_expr(Expr::Missing, around),
        Some(ty) => lower_expr(ctx, env, &ty.expr, false, around),
    }
}

/// Lowers the expression in the slot `e`, where the slot is not empty.
fn lower_present(ctx: &mut Ctx, env: &Env, e: &Option<Box<syntax::Expr>>) -> (id: Option<ExprId>)
    requires
        old(ctx).inv(),
        room(old(ctx)@, weight_of_expr(*e)),
    ensures
        (final(ctx)@, id) == lowered_present(env@, old(ctx)@, *e),
        final(ctx).inv(),
        step(old(ctx)@, final(ctx)@, weight_of_expr(*e)),
        id matches Some(id) ==> (id.0 as int) < final(ctx)@.bodies.exprs.len(),
        id matches Some(id) ==> forall|around: TextRange|
            #[trigger] slot_range(*e, around) == final(ctx)@.bodies.range_of(id),
        nested_slot(*e) && old(ctx)@.bodies.ranges_nested() ==> final(ctx)@.bodies.ranges_nested(),
        final(ctx).first_uid == old(ctx).first_uid,
    decreases *e, 1nat,
{
    match e {
        None => {
            proof {
                lemma_extended_refl(ctx@.bodies);
            }
            None
        },
        Some(present) => Some(lower_expr(ctx, env, e, false, present.range)),
    }
}

/// Lowers the expression of a type annotation, where there is one and
/// it holds an expression.
fn lower_present_ty(ctx: &mut Ctx, env: &Env, ty: &Option<syntax::Ty>) -> (id: Option<ExprId>)
    requires
        old(ctx).inv(),
        room(old(ctx)@, weight_of_ty(*ty)),
    ensures
        (final(ctx)@, id) == lowered_present_ty(env@, old(ctx)@, *ty),
        final(ctx).inv(),
        step(old(ctx)@, final(ctx)@, weight_of_ty(*ty)),
        id matches Some(id) ==> (id.0 as int) < final(ctx)@.bodies.exprs.len(),
        id matches Some(id) ==> forall|around: TextRange|
            #[trigger] ty_range(*ty, around) == final(ctx)@.bodies.range_of(id),
        nested_ty_slot(*ty) && old(ctx)@.bodies.ranges_nested()
            ==> final(ctx)@.bodies.ranges_nested(),
        final(ctx).first_uid == old(ctx).first_uid,
    decreases *ty, 0nat,
{
    match ty {
        None => {
            proof {
                lemma_extended_refl(ctx@.bodies);
            }
            None
        },
        Some(ty) => lower_present(ctx, env, &ty.expr),
    }
}

/// Lowers the expression `e`, without giving it its place in the arena.
fn lower_expr_raw(ctx: &mut Ctx, env: &Env, e: &syntax::Expr, top: bool) -> (raw: Expr)
    requires
        old(ctx).inv(),
        room(old(ctx)@, weight_of_raw(*e)),
    ensures
        (final(ctx)@, raw@) == lowered_raw(env@, old(ctx)@, *e, top),
        final(ctx).inv(),
        step(old(ctx)@, final(ctx)@, weight_of_raw(*e)),
        final(ctx)@.bodies.admits(raw@),
        nested(*e) && old(ctx)@.bodies.ranges_nested() ==> final(ctx)@.bodies.ranges_nested()
            && final(ctx)@.bodies.within(raw@, e.range),
        final(ctx)@.bodies.takes_uid(raw@, final(ctx).first_uid@, final(ctx)@.next_uid),
        final(ctx).first_uid == old(ctx).first_uid,
        raw@.names_below(final(ctx)@.interner.len()),
    decreases *e, 1nat,
{
    match &e.kind {
        syntax::ExprKind::Cast { .. } => lower_cast_expr(ctx, env, e),
        syntax::ExprKind::Ref { .. } => lower_ref_expr(ctx, env, e),
        syntax::ExprKind::Deref { .. } => lower_deref_expr(ctx, env, e),
        syntax::ExprKind::Binary { .. } => lower_binary_expr(ctx, env, e),
        syntax::ExprKind::Unary { .. } => lower_unary_expr(ctx, env, e),
        syntax::ExprKind::Index { .. } => lower_index_expr(ctx, env, e),
        syntax::ExprKind::If { .. } => lower_if(ctx, env, e),
        syntax::ExprKind::While { .. } => lower_while(ctx, env, e),
        syntax::ExprKind::Distinct { .. } => lower_distinct(ctx, env, e),
        syntax::ExprKind::Path { .. } => lower_path(ctx, env, e),
        syntax::ExprKind::Array { .. } => lower_array_expr(ctx, env, e),
        syntax::ExprKind::Block { .. } => lower_block(ctx, env, e),
        syntax::ExprKind::Call { .. } => lower_call(ctx, env, e),
        syntax::ExprKind::VarRef { .. } => lower_var_ref(ctx, env, e),
        syntax::ExprKind::IntLiteral { text } => lower_int_literal(ctx, text, e.range),
        syntax::ExprKind::FloatLiteral { value } => {
            proof {
                lemma_extended_refl(ctx@.bodies);
            }
            Expr::FloatLiteral(
                syntax::FloatValue { bits: value.bits, shown: value.shown.clone() },
            )
        },
        syntax::ExprKind::BoolLiteral { value } => {
            proof {
                lemma_extended_refl(ctx@.bodies);
            }
            Expr::BoolLiteral(*value)
        },
        syntax::ExprKind::CharLiteral { components } => lower_char_literal(
            ctx,
            components,
            e.range,
        ),
        syntax::ExprKind::StringLiteral(literal) => lower_string_literal(ctx, &literal.components),
        syntax::ExprKind::Lambda(lambda) => lower_lambda(ctx, env, lambda, top, e.range),
        syntax::ExprKind::StructDecl { .. } => lower_struct_declaration(ctx, env, e),
        syntax::ExprKind::StructLiteral { .. } => lower_struct_literal(ctx, env, e),
        syntax::ExprKind::Import { file } => lower_import(ctx, env, file),
        syntax::ExprKind::Comptime { .. } => lower_comptime(ctx, env, e),
    }
}

fn lower_cast_expr(ctx: &mut Ctx, env: &Env, e: &syntax::Expr) -> (raw: Expr)
    requires
        old(ctx).inv(),
        room(old(ctx)@, weight_of_raw(*e)),
        e.kind is Cast,
    ensures
        forall|top: bool| (final(ctx)@, raw@) == lowered_raw(env@, old(ctx)@, *e, top),
        final(ctx).inv(),
        step(old(ctx)@, final(ctx)@, weight_of_raw(*e)),
        final(ctx)@.bodies.admits(raw@),
        nested(*e) && old(ctx)@.bodies.ranges_nested() ==> final(ctx)@.bodies.ranges_nested()
            && final(ctx)@.bodies.within(raw@, e.range),
        final(ctx)@.bodies.takes_uid(raw@, final(ctx).first_uid@, final(ctx)@.next_uid),
        final(ctx).first_uid == old(ctx).first_uid,
        raw@.names_below(final(ctx)@.interner.len()),
    decreases *e, 0nat,
{
    match &e.kind {
        syntax::ExprKind::Cast { expr, ty } => {
            proof {
                if nested(*e) {
                    lemma_inside(*expr, e.range);
                    lemma_inside_ty(*ty, e.range);
                }
            }
            let expr_id: ExprId = lower_expr(ctx, env, expr, false, e.range);
            let ghost mid = ctx@;
            let ty_id: ExprId = lower_ty(ctx, env, ty, e.range);
            proof {
                lemma_step_trans(old(ctx)@, mid, ctx@, weight_of_expr(*expr), weight_of_ty(*ty));
            }
            Expr::Cast { expr: expr_id, ty: ty_id }
        },
        _ => Expr::Missing,
    }
}

fn lower_ref_expr(ctx: &mut Ctx, env: &Env, e: &syntax::Expr) -> (raw: Expr)
    requires
        old(ctx).inv(),
        room(old(ctx)@, weight_of_raw(*e)),
        e.kind is Ref,
    ensures
        forall|top: bool| (final(ctx)@, raw@) == lowered_raw(env@, old(ctx)@, *e, top),
        final(ctx).inv(),
        step(old(ctx)@, final(ctx)@, weight_of_raw(*e)),
        final(ctx)@.bodies.admits(raw@),
        nested(*e) && old(ctx)@.bodies.ranges_nested() ==> final(ctx)@.bodies.ranges_nested()
            && final(ctx)@.bodies.within(raw@, e.range),
        final(ctx)@.bodies.takes_uid(raw@, final(ctx).first_uid@, final(ctx)@.next_uid),
        final(ctx).first_uid == old(ctx).first_uid,
        raw@.names_below(final(ctx)@.interner.len()),
    decreases *e, 0nat,
{
    match &e.kind {
        syntax::ExprKind::Ref { mutable, expr } => {
            proof {
                if nested(*e) {
                    lemma_inside(*expr, e.range);
                }
            }
            let expr: ExprId = lower_expr(ctx, env, expr, false, e.range);
            Expr::Ref { mutable: *mutable, expr }
        },
        _ => Expr::Missing,
    }
}

fn lower_deref_expr(ctx: &mut Ctx, env: &Env, e: &syntax::Expr) -> (raw: Expr)
    requires
        old(ctx).inv(),
        room(old(ctx)@, weight_of_raw(*e)),
        e.kind is Deref,
    ensures
        forall|top: bool| (final(ctx)@, raw@) == lowered_raw(env@, old(ctx)@, *e, top),
        final(ctx).inv(),
        step(old(ctx)@, final(ctx)@, weight_of_raw(*e)),
        final(ctx)@.bodies.admits(raw@),
        nested(*e) && old(ctx)@.bodies.ranges_nested() ==> final(ctx)@.bodies.ranges_nested()
            && final(ctx)@.bodies.within(raw@, e.range),
        final(ctx)@.bodies.takes_uid(raw@, final(ctx).first_uid@, final(ctx)@.next_uid),
        final(ctx).first_uid == old(ctx).first_uid,
        raw@.names_below(final(ctx)@.interner.len()),
    decreases *e, 0nat,
{
    match &e.kind {
        syntax::ExprKind::Deref { pointer } => {
            proof {
                if nested(*e) {
                    lemma_inside(*pointer, e.range);
                }
            }
            let pointer: ExprId = lower_expr(ctx, env, pointer, false, e.range);
            Expr::Deref { pointer }
        },
        _ => Expr::Missing,
    }
}

fn lower_distinct(ctx: &mut Ctx, env: &Env, e: &syntax::Expr) -> (raw: Expr)
    requires
        old(ctx).inv(),
        room(old(ctx)@, weight_of_raw(*e)),
        e.kind is Distinct,
    ensures
        forall|top: bool| (final(ctx)@, raw@) == lowered_raw(env@, old(ctx)@, *e, top),
        final(ctx).inv(),
        step(old(ctx)@, final(ctx)@, weight_of_raw(*e)),
        final(ctx)@.bodies.admits(raw@),
        nested(*e) && old(ctx)@.bodies.ranges_nested() ==> final(ctx)@.bodies.ranges_nested()
            && final(ctx)@.bodies.within(raw@, e.range),
        final(ctx)@.bodies.takes_uid(raw@, final(ctx).first_uid@, final(ctx)@.next_uid),
        final(ctx).first_uid == old(ctx).first_uid,
        raw@.names_below(final(ctx)@.interner.len()),
    decreases *e, 0nat,
{
    match &e.kind {
        syntax::ExprKind::Distinct { ty } => {
            proof {
                if nested(*e) {
                    lemma_inside_ty(*ty, e.range);
                }
            }
            let ty_id: ExprId = lower_ty(ctx, env, ty, e.range);
            let ghost mid = ctx@;
            let uid: u32 = ctx.mint();
            proof {
                lemma_step_trans(old(ctx)@, mid, ctx@, weight_of_ty(*ty), 1);
            }
            Expr::Distinct { uid, ty: ty_id }
        },
        _ => Expr::Missing,
    }
}

fn lower_binary_expr(ctx: &mut Ctx, env: &Env, e: &syntax::Expr) -> (raw: Expr)
    requires
        old(ctx).inv(),
        room(old(ctx)@, weight_of_raw(*e)),
        e.kind is Binary,
    ensures
        forall|top: bool| (final(ctx)@, raw@) == lowered_raw(env@, old(ctx)@, *e, top),
        final(ctx).inv(),
        step(old(ctx)@, final(ctx)@, weight_of_raw(*e)),
        final(ctx)@.bodies.admits(raw@),
        nested(*e) && old(ctx)@.bodies.ranges_nested() ==> final(ctx)@.bodies.ranges_nested()
            && final(ctx)@.bodies.within(raw@, e.range),
        final(ctx)@.bodies.takes_uid(raw@, final(ctx).first_uid@, final(ctx)@.next_uid),
        final(ctx).first_uid == old(ctx).first_uid,
        raw@.names_below(final(ctx)@.interner.len()),
    decreases *e, 0nat,
{
    match &e.kind {
        syntax::ExprKind::Binary { lhs, rhs, op } => {
            proof {
                if nested(*e) {
                    lemma_inside(*lhs, e.range);
                    lemma_inside(*rhs, e.range);
                }
            }
            let lhs_id: ExprId = lower_expr(ctx, env, lhs, false, e.range);
            let ghost mid = ctx@;
            let rhs_id: ExprId = lower_expr(ctx, env, rhs, false, e.range);
            proof {
                lemma_step_trans(
                    old(ctx)@,
                    mid,
                    ctx@,
                    weight_of_expr(*lhs),
                    weight_of_expr(*rhs),
                );
            }
            match op {
                Some(op) => Expr::Binary { lhs: lhs_id, rhs: rhs_id, op: *op },
                None => Expr::Missing,
            }
        },
        _ => Expr::Missing,
    }
}

fn lower_unary_expr(ctx: &mut Ctx, env: &Env, e: &syntax::Expr) -> (raw: Expr)
    requires
        old(ctx).inv(),
        room(old(ctx)@, weight_of_raw(*e)),
        e.kind is Unary,
    ensures
        forall|top: bool| (final(ctx)@, raw@) == lowered_raw(env@, old(ctx)@, *e, top),
        final(ctx).inv(),
        step(old(ctx)@, final(ctx)@, weight_of_raw(*e)),
        final(ctx)@.bodies.admits(raw@),
        nested(*e) && old(ctx)@.bodies.ranges_nested() ==> final(ctx)@.bodies.ranges_nested()
            && final(ctx)@.bodies.within(raw@, e.range),
        final(ctx)@.bodies.takes_uid(raw@, final(ctx).first_uid@, final(ctx)@.next_uid),
        final(ctx).first_uid == old(ctx).first_uid,
        raw@.names_below(final(ctx)@.interner.len()),
    decreases *e, 0nat,
{
    match &e.kind {
        syntax::ExprKind::Unary { expr, op } => {
            proof {
                if nested(*e) {
                    lemma_inside(*expr, e.range);
                }
            }
            let expr: ExprId = lower_expr(ctx, env, expr, false, e.range);
            match op {
                Some(op) => Expr::Unary { expr, op: *op },
                None => Expr::Missing,
            }
        },
        _ => Expr::Missing,
    }
}

fn lower_index_expr(ctx: &mut Ctx, env: &Env, e: &syntax::Expr) -> (raw: Expr)
    requires
        old(ctx).inv(),
        room(old(ctx)@, weight_of_raw(*e)),
        e.kind is Index,
    ensures
        forall|top: bool| (final(ctx)@, raw@) == lowered_raw(env@, old(ctx)@, *e, top),
        final(ctx).inv(),
        step(old(ctx)@, final(ctx)@, weight_of_raw(*e)),
        final(ctx)@.bodies.admits(raw@),
        nested(*e) && old(ctx)@.bodies.ranges_nested() ==> final(ctx)@.bodies.ranges_nested()
            && final(ctx)@.bodies.within(raw@, e.range),
        final(ctx)@.bodies.takes_uid(raw@, final(ctx).first_uid@, final(ctx)@.next_uid),
        final(ctx).first_uid == old(ctx).first_uid,
        raw@.names_below(final(ctx)@.interner.len()),
    decreases *e, 0nat,
{
    match &e.kind {
        syntax::ExprKind::Index { array, index } => {
            proof {
                if nested(*e) {
                    lemma_inside(*array, e.range);
                    lemma_inside(*index, e.range);
                }
            }
            let array_id: ExprId = lower_expr(ctx, env, array, false, e.range);
            let ghost mid = ctx@;
            let index_id: ExprId = lower_expr(ctx, env, index, false, e.range);
            proof {
                lemma_step_trans(
                    old(ctx)@,
                    mid,
                    ctx@,
                    weight_of_expr(*array),
                    weight_of_expr(*index),
                );
            }
            Expr::Index { array: array_id, index: index_id }
        },
        _ => Expr::Missing,
    }
}

fn lower_if(ctx: &mut Ctx, env: &Env, e: &syntax::Expr) -> (raw: Expr)
    requires
        old(ctx).inv(),
        room(old(ctx)@, weight_of_raw(*e)),
        e.kind is If,
    ensures
        forall|top: bool| (final(ctx)@, raw@) == lowered_raw(env@, old(ctx)@, *e, top),
        final(ctx).inv(),
        step(old(ctx)@, final(ctx)@, weight_of_raw(*e)),
        final(ctx)@.bodies.admits(raw@),
        nested(*e) && old(ctx)@.bodies.ranges_nested() ==> final(ctx)@.bodies.ranges_nested()
            && final(ctx)@.bodies.within(raw@, e.range),
        final(ctx)@.bodies.takes_uid(raw@, final(ctx).first_uid@, final(ctx)@.next_uid),
        final(ctx).first_uid == old(ctx).first_uid,
        raw@.names_below(final(ctx)@.interner.len()),
    decreases *e, 0nat,
{
    match &e.kind {
        syntax::ExprKind::If { condition, body, else_branch } => {
            proof {
                if nested(*e) {
                    lemma_inside(*condition, e.range);
                    lemma_inside(*body, e.range);
                    match else_branch {
                        Some(else_body) => {
                            lemma_inside(*else_body, e.range);
                        },
                        None => {},
                    }
                }
            }
            let condition_id: ExprId = lower_expr(ctx, env, condition, false, e.range);
            let ghost first = ctx@;
            let body_id: ExprId = lower_expr(ctx, env, body, false, e.range);
            let ghost second = ctx@;
            proof {
                lemma_step_trans(
                    old(ctx)@,
                    first,
                    second,
                    weight_of_expr(*condition),
                    weight_of_expr(*body),
                );
            }
            let else_id: Option<ExprId> = match else_branch {
                Some(else_body) => {
                    let id: ExprId = lower_expr(ctx, env, else_body, false, e.range);
                    proof {
                        lemma_step_trans(
                            old(ctx)@,
                            second,
                            ctx@,
                            weight_of_expr(*condition) + weight_of_expr(*body),
                            weight_of_expr(*else_body),
                        );
                    }
                    Some(id)
                },
                None => None,
            };
            Expr::If { condition: condition_id, body: body_id, else_branch: else_id }
        },
        _ => Expr::Missing,
    }
}

fn lower_while(ctx: &mut Ctx, env: &Env, e: &syntax::Expr) -> (raw: Expr)
    requires
        old(ctx).inv(),
        room(old(ctx)@, weight_of_raw(*e)),
        e.kind is While,
    ensures
        forall|top: bool| (final(ctx)@, raw@) == lowered_raw(env@, old(ctx)@, *e, top),
        final(ctx).inv(),
        step(old(ctx)@, final(ctx)@, weight_of_raw(*e)),
        final(ctx)@.bodies.admits(raw@),
        nested(*e) && old(ctx)@.bodies.ranges_nested() ==> final(ctx)@.bodies.ranges_nested()
            && final(ctx)@.bodies.within(raw@, e.range),
        final(ctx)@.bodies.takes_uid(raw@, final(ctx).first_uid@, final(ctx)@.next_uid),
        final(ctx).first_uid == old(ctx).first_uid,
        raw@.names_below(final(ctx)@.interner.len()),
    decreases *e, 0nat,
{
    match &e.kind {
        syntax::ExprKind::While { condition, body } => {
            proof {
                if nested(*e) {
                    lemma_inside(*condition, e.range);
                    lemma_inside(*body, e.range);
                }
            }
            let condition_id: Option<ExprId> = lower_present(ctx, env, condition);
            let ghost mid = ctx@;
            let body_id: ExprId = lower_expr(ctx, env, body, false, e.range);
            proof {
                lemma_step_trans(
                    old(ctx)@,
                    mid,
                    ctx@,
                    weight_of_expr(*condition),
                    weight_of_expr(*body),
                );
            }
            Expr::While { condition: condition_id, body: body_id }
        },
        _ => Expr::Missing,
    }
}

fn lower_path(ctx: &mut Ctx, env: &Env, e: &syntax::Expr) -> (raw: Expr)
    requires
        old(ctx).inv(),
        room(old(ctx)@, weight_of_raw(*e)),
        e.kind is Path,
    ensures
        forall|top: bool| (final(ctx)@, raw@) == lowered_raw(env@, old(ctx)@, *e, top),
        final(ctx).inv(),
        step(old(ctx)@, final(ctx)@, weight_of_raw(*e)),
        final(ctx)@.bodies.admits(raw@),
        nested(*e) && old(ctx)@.bodies.ranges_nested() ==> final(ctx)@.bodies.ranges_nested()
            && final(ctx)@.bodies.within(raw@, e.range),
        final(ctx)@.bodies.takes_uid(raw@, final(ctx).first_uid@, final(ctx)@.next_uid),
        final(ctx).first_uid == old(ctx).first_uid,
        raw@.names_below(final(ctx)@.interner.len()),
    decreases *e, 0nat,
{
    match &e.kind {
        syntax::ExprKind::Path { previous, field } => {
            proof {
                if nested(*e) {
                    lemma_inside(*previous, e.range);
                }
            }
            match field {
                Some(field) => {
                    let key: Key = ctx.intern(field.text.as_str());
                    let ghost mid = ctx@;
                    let previous_id: ExprId = lower_expr(ctx, env, previous, false, e.range);
                    proof {
                        lemma_step_trans(old(ctx)@, mid, ctx@, 1, weight_of_expr(*previous));
                    }
                    Expr::Path {
                        previous: previous_id,
                        field: NameWithRange { name: Name(key), range: field.range },
                    }
                },
                None => {
                    proof {
                        lemma_extended_refl(ctx@.bodies);
                    }
                    Expr::Missing
                },
            }
        },
        _ => Expr::Missing,
    }
}

/// Lowers an integer literal with the text `text`, at `range`.
fn lower_int_literal(ctx: &mut Ctx, text: &Option<String>, range: TextRange) -> (raw: Expr)
    requires
        old(ctx).inv(),
    ensures
        (final(ctx)@, raw@) == lowered_int_literal(old(ctx)@, *text, range),
        final(ctx).inv(),
        step(old(ctx)@, final(ctx)@, 0),
        final(ctx)@.bodies.admits(raw@),
        old(ctx)@.bodies.ranges_nested() ==> final(ctx)@.bodies.ranges_nested(),
        forall|c: ExprId| !final(ctx)@.bodies.reads(raw@, c),
        final(ctx)@.bodies.takes_uid(raw@, final(ctx).first_uid@, final(ctx)@.next_uid),
        final(ctx).first_uid == old(ctx).first_uid,
        raw@.names_below(final(ctx)@.interner.len()),
{
    proof {
        lemma_extended_refl(ctx@.bodies);
    }
    match text {
        None => Expr::Missing,
        Some(text) => match parse_int_literal(text.as_str()) {
            Some(value) => Expr::IntLiteral(value),
            None => {
                ctx.diagnose(LoweringDiagnosticKind::OutOfRangeIntLiteral, range);
                Expr::Missing
            },
        },
    }
}

/// Lowers a string literal.
fn lower_string_literal(ctx: &mut Ctx, components: &Vec<syntax::StringComponent>) -> (raw: Expr)
    requires
        old(ctx).inv(),
    ensures
        (final(ctx)@, raw@) == lowered_string_literal(old(ctx)@, components@),
        final(ctx).inv(),
        step(old(ctx)@, final(ctx)@, 0),
        final(ctx)@.bodies.admits(raw@),
        old(ctx)@.bodies.ranges_nested() ==> final(ctx)@.bodies.ranges_nested(),
        forall|c: ExprId| !final(ctx)@.bodies.reads(raw@, c),
        final(ctx)@.bodies.takes_uid(raw@, final(ctx).first_uid@, final(ctx)@.next_uid),
        final(ctx).first_uid == old(ctx).first_uid,
        raw@.names_below(final(ctx)@.interner.len()),
{
    let unescaped: Unescaped = unescape_components(components);
    ctx.diagnose_escapes(&unescaped.invalid);
    Expr::StringLiteral(unescaped.text)
}

/// Lowers a character literal at `range`.
fn lower_char_literal(
    ctx: &mut Ctx,
    components: &Vec<syntax::StringComponent>,
    range: TextRange,
) -> (raw: Expr)
    requires
        old(ctx).inv(),
    ensures
        (final(ctx)@, raw@) == lowered_char_literal(old(ctx)@, components@, range),
        final(ctx).inv(),
        step(old(ctx)@, final(ctx)@, 0),
        final(ctx)@.bodies.admits(raw@),
        old(ctx)@.bodies.ranges_nested() ==> final(ctx)@.bodies.ranges_nested(),
        forall|c: ExprId| !final(ctx)@.bodies.reads(raw@, c),
        final(ctx)@.bodies.takes_uid(raw@, final(ctx).first_uid@, final(ctx)@.next_uid),
        final(ctx).first_uid == old(ctx).first_uid,
        raw@.names_below(final(ctx)@.interner.len()),
{
    let unescaped: Unescaped = unescape_components(components);
    ctx.diagnose_escapes(&unescaped.invalid);
    let ghost mid = ctx@;
    let byte: u8 = if unescaped.written == 0 {
        ctx.diagnose(LoweringDiagnosticKind::EmptyCharLiteral, range);
        0
    } else if unescaped.written > 1 {
        ctx.diagnose(LoweringDiagnosticKind::TooManyCharsInCharLiteral, range);
        0
    } else {
        let c: char = if unescaped.text.as_str().unicode_len() > 0 {
            unescaped.text.as_str().get_char(0)
        } else {
            '\0'
        };
        if c as u32 > 255 {
            ctx.diagnose(LoweringDiagnosticKind::NonU8CharLiteral, range);
            0
        } else {
            c as u8
        }
    };
    proof {
        lemma_step_trans(old(ctx)@, mid, ctx@, 0, 0);
    }
    Expr::CharLiteral(byte)
}

/// Lowers a reference to a variable.
fn lower_var_ref(ctx: &mut Ctx, env: &Env, e: &syntax::Expr) -> (raw: Expr)
    requires
        old(ctx).inv(),
        room(old(ctx)@, weight_of_raw(*e)),
        e.kind is VarRef,
    ensures
        forall|top: bool| (final(ctx)@, raw@) == lowered_raw(env@, old(ctx)@, *e, top),
        final(ctx).inv(),
        step(old(ctx)@, final(ctx)@, weight_of_raw(*e)),
        final(ctx)@.bodies.admits(raw@),
        nested(*e) && old(ctx)@.bodies.ranges_nested() ==> final(ctx)@.bodies.ranges_nested()
            && final(ctx)@.bodies.within(raw@, e.range),
        final(ctx)@.bodies.takes_uid(raw@, final(ctx).first_uid@, final(ctx)@.next_uid),
        final(ctx).first_uid == old(ctx).first_uid,
        raw@.names_below(final(ctx)@.interner.len()),
{
    match &e.kind {
        syntax::ExprKind::VarRef { name } => match name {
            None => {
                proof {
                    lemma_extended_refl(ctx@.bodies);
                }
                Expr::Missing
            },
            Some(ident) => {
                let key: Key = ctx.intern(ident.text.as_str());
                let ghost mid = ctx@;
                match ctx.lookup_local(key) {
                    Some(def) => {
                        return Expr::Local(def);
                    },
                    None => {},
                }
                match ctx.lookup_param(key) {
                    Some((idx, range)) => {
                        return Expr::Param { idx, range };
                    },
                    None => {},
                }
                let name = Name(key);
                if env.index.is_defined(name) {
                    return Expr::SelfGlobal(NameWithRange { name, range: ident.range });
                }
                match PrimitiveTy::parse(ident.text.as_str()) {
                    Some(ty) => {
                        return Expr::PrimitiveTy(ty);
                    },
                    None => {},
                }
                ctx.diagnose(LoweringDiagnosticKind::UndefinedRef { name: key }, ident.range);
                proof {
                    lemma_step_trans(old(ctx)@, mid, ctx@, 1, 0);
                }
                Expr::Missing
            },
        },
        _ => Expr::Missing,
    }
}

/// Lowers an import of the file that the string literal `file` names.
fn lower_import(ctx: &mut Ctx, env: &Env, file: &Option<syntax::StringLiteral>) -> (raw: Expr)
    requires
        old(ctx).inv(),
        room(old(ctx)@, 1),
    ensures
        (final(ctx)@, raw@) == lowered_import(env@, old(ctx)@, *file),
        final(ctx).inv(),
        step(old(ctx)@, final(ctx)@, 1),
        final(ctx)@.bodies.admits(raw@),
        old(ctx)@.bodies.ranges_nested() ==> final(ctx)@.bodies.ranges_nested(),
        forall|c: ExprId| !final(ctx)@.bodies.reads(raw@, c),
        final(ctx)@.bodies.takes_uid(raw@, final(ctx).first_uid@, final(ctx)@.next_uid),
        final(ctx).first_uid == old(ctx).first_uid,
        raw@.names_below(final(ctx)@.interner.len()),
{
    let file: &syntax::StringLiteral = match file {
        Some(file) => file,
        None => {
            proof {
                lemma_extended_refl(ctx@.bodies);
            }
            return Expr::Missing;
        },
    };
    let unescaped: Unescaped = unescape_components(&file.components);
    let text: String = replace_separators(unescaped.text.as_str(), env.host.separator);
    ctx.diagnose_escapes(&unescaped.invalid);
    let ghost mid = ctx@;
    if unescaped.invalid.len() > 0 {
        return Expr::Missing;
    }
    if !has_capy_extension(text.as_str()) {
        ctx.diagnose(LoweringDiagnosticKind::ImportMustEndInDotCapy, file.range);
        proof {
            lemma_step_trans(old(ctx)@, mid, ctx@, 0, 0);
        }
        return Expr::Missing;
    }
    let path: String = match &env.host.disk {
        Some(disk) => {
            let path: String = disk.resolve(env.file_name, text.as_str());
            if !disk.has_file(path.as_str()) {
                ctx.diagnose(LoweringDiagnosticKind::ImportDoesNotExist { file: path }, file.range);
                proof {
                    lemma_step_trans(old(ctx)@, mid, ctx@, 0, 0);
                }
                return Expr::Missing;
            }
            path
        },
        None => text,
    };
    let key: Key = ctx.intern(path.as_str());
    let ghost interned = ctx@;
    let file_name = FileName(key);
    ctx.add_import(file_name);
    proof {
        lemma_step_trans(old(ctx)@, mid, interned, 0, 1);
        lemma_step_trans(old(ctx)@, interned, ctx@, 1, 0);
    }
    Expr::Import(file_name)
}

/// Lowers the expressions `items`, in order.
fn lower_items(
    ctx: &mut Ctx,
    env: &Env,
    items: &Vec<Option<Box<syntax::Expr>>>,
    around: TextRange,
) -> (ids: Vec<ExprId>)
    requires
        old(ctx).inv(),
        room(old(ctx)@, weight_of_items(*items, items@.len())),
    ensures
        (final(ctx)@, ids@) == lowered_items(env@, old(ctx)@, *items, items@.len(), around),
        final(ctx).inv(),
        step(old(ctx)@, final(ctx)@, weight_of_items(*items, items@.len())),
        forall|k: int|
            0 <= k < ids@.len() ==> ((#[trigger] ids@[k]).0 as int)
                < final(ctx)@.bodies.exprs.len(),
        ids@.len() == items@.len(),
        forall|k: int|
            0 <= k < ids@.len() ==> final(ctx)@.bodies.range_of(#[trigger] ids@[k]) == slot_range(
                items@[k], around),
        (forall|k: int| 0 <= k < items@.len() ==> nested_slot(#[trigger] items@[k]))
            && old(ctx)@.bodies.ranges_nested()
            ==> final(ctx)@.bodies.ranges_nested(),
        final(ctx).first_uid == old(ctx).first_uid,
    decreases *items, items@.len(),
{
    let mut ids: Vec<ExprId> = Vec::new();
    let mut i: usize = 0;
    proof {
        lemma_extended_refl(ctx@.bodies);
    }
    while i < items.len()
        invariant
            i <= items@.len(),
            ids@.len() == i,
            ctx.inv(),
            old(ctx)@.bodies.wf(),
            room(old(ctx)@, weight_of_items(*items, items@.len())),
            ctx.first_uid == old(ctx).first_uid,
            (ctx@, ids@) == lowered_items(env@, old(ctx)@, *items, i as nat, around),
            step(old(ctx)@, ctx@, weight_of_items(*items, i as nat)),
            forall|k: int|
                0 <= k < ids@.len() ==> ctx@.bodies.range_of(#[trigger] ids@[k]) == slot_range(
                    items@[k], around),
            (forall|k: int| 0 <= k < items@.len() ==> nested_slot(#[trigger] items@[k]))
                && old(ctx)@.bodies.ranges_nested() ==> ctx@.bodies.ranges_nested(),
            forall|k: int|
                0 <= k < ids@.len() ==> ((#[trigger] ids@[k]).0 as int)
                    < ctx@.bodies.exprs.len(),
        decreases items.len() - i,
    {
        proof {
            lemma_items_weight(*items, (i + 1) as nat, items@.len());
        }
        let ghost before = ctx@;
        let id: ExprId = lower_expr(ctx, env, &items[i], false, around);
        proof {
            lemma_step_trans(
                old(ctx)@,
                before,
                ctx@,
                weight_of_items(*items, i as nat),
                weight_of_expr(items@[i as int]),
            );
        }
        ids.push(id);
        i = i + 1;
    }
    ids
}

/// Lowers the fields `fields`, in order.
fn lower_fields(
    ctx: &mut Ctx,
    env: &Env,
    fields: &Vec<syntax::Field>,
    around: TextRange,
) -> (lowered: Vec<(Option<NameWithRange>, ExprId)>)
    requires
        old(ctx).inv(),
        room(old(ctx)@, weight_of_fields(*fields, fields@.len())),
    ensures
        (final(ctx)@, lowered@) == lowered_fields(env@, old(ctx)@, *fields, fields@.len(), around),
        final(ctx).inv(),
        step(old(ctx)@, final(ctx)@, weight_of_fields(*fields, fields@.len())),
        forall|k: int|
            0 <= k < lowered@.len() ==> ((#[trigger] lowered@[k]).1.0 as int)
                < final(ctx)@.bodies.exprs.len(),
        lowered@.len() == fields@.len(),
        forall|k: int|
            0 <= k < lowered@.len() ==> final(ctx)@.bodies.range_of((#[trigger] lowered@[k]).1)
                == slot_range(fields@[k].value, around),
        (forall|k: int| 0 <= k < fields@.len() ==> nested_slot((#[trigger] fields@[k]).value))
            && old(ctx)@.bodies.ranges_nested()
            ==> final(ctx)@.bodies.ranges_nested(),
        final(ctx).first_uid == old(ctx).first_uid,
        field_names_below(lowered@, final(ctx)@.interner.len()),
    decreases *fields, fields@.len(),
{
    let mut lowered: Vec<(Option<NameWithRange>, ExprId)> = Vec::new();
    let mut i: usize = 0;
    proof {
        lemma_extended_refl(ctx@.bodies);
    }
    while i < fields.len()
        invariant
            i <= fields@.len(),
            ctx.inv(),
            old(ctx)@.bodies.wf(),
            room(old(ctx)@, weight_of_fields(*fields, fields@.len())),
            lowered@.len() == i,
            field_names_below(lowered@, ctx@.interner.len()),
            ctx.first_uid == old(ctx).first_uid,
            (ctx@, lowered@) == lowered_fields(env@, old(ctx)@, *fields, i as nat, around),
            step(old(ctx)@, ctx@, weight_of_fields(*fields, i as nat)),
            forall|k: int|
                0 <= k < lowered@.len() ==> ctx@.bodies.range_of((#[trigger] lowered@[k]).1)
                    == slot_range(fields@[k].value, around),
            (forall|k: int| 0 <= k < fields@.len() ==> nested_slot((#[trigger] fields@[k]).value))
                && old(ctx)@.bodies.ranges_nested() ==> ctx@.bodies.ranges_nested(),
            forall|k: int|
                0 <= k < lowered@.len() ==> ((#[trigger] lowered@[k]).1.0 as int)
                    < ctx@.bodies.exprs.len(),
        decreases fields.len() - i,
    {
        proof {
            lemma_fields_weight(*fields, (i + 1) as nat, fields@.len());
        }
        let ghost before = ctx@;
        let field: &syntax::Field = &fields[i];
        let name: Option<NameWithRange> = match &field.name {
            Some(ident) => {
                let key: Key = ctx.intern(ident.text.as_str());
                Some(NameWithRange { name: Name(key), range: ident.range })
            },
            None => {
                proof {
                    lemma_extended_refl(ctx@.bodies);
                }
                None
            },
        };
        let ghost named = ctx@;
        let value: ExprId = lower_expr(ctx, env, &field.value, false, around);
        proof {
            lemma_step_trans(before, named, ctx@, 1, weight_of_expr(field.value));
            lemma_step_trans(
                old(ctx)@,
                before,
                ctx@,
                weight_of_fields(*fields, i as nat),
                1 + weight_of_expr(field.value),
            );
        }
        lowered.push((name, value));
        i = i + 1;
    }
    lowered
}

/// What lowering the parameters of a lambda gives.
struct LoweredParams {
    params: Vec<crate::hir::Param>,
    positions: IdMap,
    ranges: Vec<TextRange>,
}

/// Lowers the parameters `params` of a lambda, in order.
fn lower_params(
    ctx: &mut Ctx,
    env: &Env,
    params: &Vec<syntax::Param>,
    around: TextRange,
) -> (lowered: LoweredParams)
    requires
        old(ctx).inv(),
        room(old(ctx)@, weight_of_params(*params, params@.len())),
    ensures
        (final(ctx)@, lowered.params@, params_view(lowered.positions@, lowered.ranges@))
            == lowered_params(env@, old(ctx)@, *params, params@.len(), around),
        final(ctx).inv(),
        step(old(ctx)@, final(ctx)@, weight_of_params(*params, params@.len())),
        forall|k: int|
            0 <= k < lowered.params@.len() ==> ((#[trigger] lowered.params@[k]).ty.0 as int)
                < final(ctx)@.bodies.exprs.len(),
        positions_in(lowered.positions@, lowered.ranges@),
        forall|k: int|
            0 <= k < lowered.params@.len() ==> final(ctx)@.bodies.range_of(
                (#[trigger] lowered.params@[k]).ty,
            ) == ty_range(params@[k].ty, around),
        lowered.params@.len() == params@.len(),
        (forall|k: int| 0 <= k < params@.len() ==> nested_ty_slot((#[trigger] params@[k]).ty))
            && old(ctx)@.bodies.ranges_nested()
            ==> final(ctx)@.bodies.ranges_nested(),
        final(ctx).first_uid == old(ctx).first_uid,
        forall|k: int|
            0 <= k < lowered.params@.len() ==> ((#[trigger] lowered.params@[k]).name matches Some(
                name,
            ) ==> (name.0.0 as nat) < final(ctx)@.interner.len()),
    decreases *params, params@.len(),
{
    let mut lowered: Vec<crate::hir::Param> = Vec::new();
    let mut positions: IdMap = new_id_map();
    let mut ranges: Vec<TextRange> = Vec::new();
    let mut i: usize = 0;
    proof {
        lemma_extended_refl(ctx@.bodies);
        assert(params_view(positions@, ranges@) =~= Map::<u32, (u32, TextRange)>::empty());
    }
    while i < params.len()
        invariant
            i <= params@.len(),
            ranges@.len() == i,
            lowered@.len() == i,
            ctx.inv(),
            old(ctx)@.bodies.wf(),
            room(old(ctx)@, weight_of_params(*params, params@.len())),
            forall|k: int|
                0 <= k < lowered@.len() ==> ((#[trigger] lowered@[k]).name matches Some(name) ==> (
                name.0.0 as nat) < ctx@.interner.len()),
            ctx.first_uid == old(ctx).first_uid,
            (ctx@, lowered@, params_view(positions@, ranges@)) == lowered_params(
                env@,
                old(ctx)@,
                *params,
                i as nat,
                around,
            ),
            step(old(ctx)@, ctx@, weight_of_params(*params, i as nat)),
            forall|k: int|
                0 <= k < lowered@.len() ==> ((#[trigger] lowered@[k]).ty.0 as int)
                    < ctx@.bodies.exprs.len(),
            forall|k: int|
                0 <= k < lowered@.len() ==> ctx@.bodies.range_of((#[trigger] lowered@[k]).ty)
                    == ty_range(params@[k].ty, around),
            (forall|k: int| 0 <= k < params@.len() ==> nested_ty_slot((#[trigger] params@[k]).ty))
                && old(ctx)@.bodies.ranges_nested() ==> ctx@.bodies.ranges_nested(),
            positions_in(positions@, ranges@),
        decreases params.len() - i,
    {
        proof {
            lemma_params_weight(*params, (i + 1) as nat, params@.len());
        }
        let ghost before = ctx@;
        let ghost table = params_view(positions@, ranges@);
        let param: &syntax::Param = &params[i];
        let key: Option<Key> = match &param.name {
            Some(ident) => Some(ctx.intern(ident.text.as_str())),
            None => {
                proof {
                    lemma_extended_refl(ctx@.bodies);
                }
                None
            },
        };
        let ghost named = ctx@;
        let ty: ExprId = lower_ty(ctx, env, &param.ty, around);
        proof {
            lemma_step_trans(before, named, ctx@, 1, weight_of_ty(param.ty));
            lemma_step_trans(
                old(ctx)@,
                before,
                ctx@,
                weight_of_params(*params, i as nat),
                1 + weight_of_ty(param.ty),
            );
        }
        ranges.push(param.range);
        match key {
            Some(key) => {
                lowered.push(crate::hir::Param { name: Some(Name(key)), ty });
                id_map_insert(&mut positions, key.0, i as u32);
                assert(params_view(positions@, ranges@) =~= table.insert(
                    key.0,
                    (i as u32, param.range),
                ));
            },
            None => {
                lowered.push(crate::hir::Param { name: None, ty });
                assert(params_view(positions@, ranges@) =~= table);
            },
        }
        i = i + 1;
    }
    LoweredParams { params: lowered, positions, ranges }
}

/// Lowers a lambda.
fn lower_lambda(
    ctx: &mut Ctx,
    env: &Env,
    lambda: &syntax::Lambda,
    allow_extern: bool,
    around: TextRange,
) -> (raw: Expr)
    requires
        old(ctx).inv(),
        room(old(ctx)@, 1 + weight_of_lambda(*lambda)),
    ensures
        (final(ctx)@, raw@) == lowered_lambda(env@, old(ctx)@, *lambda, allow_extern, around),
        final(ctx).inv(),
        step(old(ctx)@, final(ctx)@, 1 + weight_of_lambda(*lambda)),
        final(ctx)@.bodies.admits(raw@),
        nested_lambda(*lambda, around) && old(ctx)@.bodies.ranges_nested()
            ==> final(ctx)@.bodies.ranges_nested() && final(ctx)@.bodies.within(raw@, around),
        final(ctx)@.bodies.takes_uid(raw@, final(ctx).first_uid@, final(ctx)@.next_uid),
        final(ctx).first_uid == old(ctx).first_uid,
        raw@.names_below(final(ctx)@.interner.len()),
    decreases *lambda, 0nat,
{
    let lowered: LoweredParams = lower_params(ctx, env, &lambda.params, around);
    let ghost first = ctx@;
    let return_ty: Option<ExprId> = lower_present_ty(ctx, env, &lambda.return_ty);
    let ghost second = ctx@;
    proof {
        lemma_step_trans(
            old(ctx)@,
            first,
            second,
            weight_of_params(lambda.params, lambda.params@.len()),
            weight_of_ty(lambda.return_ty),
        );
    }
    match lambda.extern_range {
        Some(range) => {
            if !allow_extern {
                ctx.diagnose(LoweringDiagnosticKind::NonGlobalExtern, range);
            }
        },
        None => {},
    }
    let ghost outer = ctx@;
    proof {
        lemma_step_trans(
            old(ctx)@,
            second,
            outer,
            weight_of_params(lambda.params, lambda.params@.len()) + weight_of_ty(
                lambda.return_ty,
            ),
            0,
        );
    }
    let LoweredParams { params, positions, ranges } = lowered;
    let mut positions: IdMap = positions;
    let mut ranges: Vec<TextRange> = ranges;
    let mut scopes: Vec<IdMap> = Vec::new();
    std::mem::swap(&mut ctx.params, &mut positions);
    std::mem::swap(&mut ctx.param_ranges, &mut ranges);
    std::mem::swap(&mut ctx.scopes, &mut scopes);
    proof {
        assert(ctx@.scopes =~= Seq::<Map<u32, u32>>::empty());
        assert(ctx@ == outer.detached(params_view(ctx.params@, ctx.param_ranges@)));
        lemma_extended_refl(outer.bodies);
    }
    let ghost detached = ctx@;
    let body: ExprId = lower_expr(ctx, env, &lambda.body, false, around);
    let ghost inner = ctx@;
    std::mem::swap(&mut ctx.params, &mut positions);
    std::mem::swap(&mut ctx.param_ranges, &mut ranges);
    std::mem::swap(&mut ctx.scopes, &mut scopes);
    proof {
        assert(ctx@ == inner.reattached(outer));
        lemma_step_trans(
            old(ctx)@,
            outer,
            ctx@,
            weight_of_params(lambda.params, lambda.params@.len()) + weight_of_ty(
                lambda.return_ty,
            ),
            weight_of_expr(lambda.body),
        );
    }
    let ghost restored = ctx@;
    let id: LambdaId = ctx.alloc_lambda(
        crate::hir::Lambda {
            params,
            params_range: lambda.params_range,
            return_ty,
            body,
            is_extern: lambda.extern_range.is_some(),
        },
    );
    proof {
        lemma_step_trans(old(ctx)@, restored, ctx@, weight_of_lambda(*lambda), 1);
    }
    Expr::Lambda(id)
}

/// Lowers a block of compile-time code.
fn lower_comptime(ctx: &mut Ctx, env: &Env, e: &syntax::Expr) -> (raw: Expr)
    requires
        old(ctx).inv(),
        room(old(ctx)@, weight_of_raw(*e)),
        e.kind is Comptime,
    ensures
        forall|top: bool| (final(ctx)@, raw@) == lowered_raw(env@, old(ctx)@, *e, top),
        final(ctx).inv(),
        step(old(ctx)@, final(ctx)@, weight_of_raw(*e)),
        final(ctx)@.bodies.admits(raw@),
        nested(*e) && old(ctx)@.bodies.ranges_nested() ==> final(ctx)@.bodies.ranges_nested()
            && final(ctx)@.bodies.within(raw@, e.range),
        final(ctx)@.bodies.takes_uid(raw@, final(ctx).first_uid@, final(ctx)@.next_uid),
        final(ctx).first_uid == old(ctx).first_uid,
        raw@.names_below(final(ctx)@.interner.len()),
    decreases *e, 0nat,
{
    match &e.kind {
        syntax::ExprKind::Comptime { body } => {
            proof {
                if nested(*e) {
                    lemma_inside(*body, e.range);
                }
            }
            let ghost outer = ctx@;
            let mut positions: IdMap = new_id_map();
            let mut ranges: Vec<TextRange> = Vec::new();
            let mut scopes: Vec<IdMap> = Vec::new();
            std::mem::swap(&mut ctx.params, &mut positions);
            std::mem::swap(&mut ctx.param_ranges, &mut ranges);
            std::mem::swap(&mut ctx.scopes, &mut scopes);
            proof {
                assert(ctx@.scopes =~= Seq::<Map<u32, u32>>::empty());
                assert(ctx@.params =~= Map::<u32, (u32, TextRange)>::empty());
                assert(ctx@ == outer.detached(Map::empty()));
            }
            let body_id: ExprId = lower_expr(ctx, env, body, false, e.range);
            let ghost inner = ctx@;
            std::mem::swap(&mut ctx.params, &mut positions);
            std::mem::swap(&mut ctx.param_ranges, &mut ranges);
            std::mem::swap(&mut ctx.scopes, &mut scopes);
            proof {
                assert(ctx@ == inner.reattached(outer));
            }
            let ghost restored = ctx@;
            let id: ComptimeId = ctx.alloc_comptime(Comptime { body: body_id });
            proof {
                lemma_step_trans(outer, restored, ctx@, weight_of_expr(*body), 1);
            }
            Expr::Comptime(id)
        },
        _ => Expr::Missing,
    }
}

/// Lowers a struct declaration.
fn lower_struct_declaration(ctx: &mut Ctx, env: &Env, e: &syntax::Expr) -> (raw: Expr)
    requires
        old(ctx).inv(),
        room(old(ctx)@, weight_of_raw(*e)),
        e.kind is StructDecl,
    ensures
        forall|top: bool| (final(ctx)@, raw@) == lowered_raw(env@, old(ctx)@, *e, top),
        final(ctx).inv(),
        step(old(ctx)@, final(ctx)@, weight_of_raw(*e)),
        final(ctx)@.bodies.admits(raw@),
        nested(*e) && old(ctx)@.bodies.ranges_nested() ==> final(ctx)@.bodies.ranges_nested()
            && final(ctx)@.bodies.within(raw@, e.range),
        final(ctx)@.bodies.takes_uid(raw@, final(ctx).first_uid@, final(ctx)@.next_uid),
        final(ctx).first_uid == old(ctx).first_uid,
        raw@.names_below(final(ctx)@.interner.len()),
    decreases *e, 0nat,
{
    match &e.kind {
        syntax::ExprKind::StructDecl { fields } => {
            proof {
                if nested(*e) {
                    assert forall|k: int| 0 <= k < fields@.len() implies covered(
                        (#[trigger] fields@[k]).value,
                        e.range,
                    ) by {
                        lemma_inside(fields@[k].value, e.range);
                    }
                }
            }
            let lowered: Vec<(Option<NameWithRange>, ExprId)> = lower_fields(
                ctx,
                env,
                fields,
                e.range,
            );
            let ghost mid = ctx@;
            let uid: u32 = ctx.mint();
            proof {
                lemma_step_trans(
                    old(ctx)@,
                    mid,
                    ctx@,
                    weight_of_fields(*fields, fields@.len()),
                    1,
                );
            }
            Expr::StructDecl { uid, fields: lowered }
        },
        _ => Expr::Missing,
    }
}

/// Lowers a struct literal.
fn lower_struct_literal(ctx: &mut Ctx, env: &Env, e: &syntax::Expr) -> (raw: Expr)
    requires
        old(ctx).inv(),
        room(old(ctx)@, weight_of_raw(*e)),
        e.kind is StructLiteral,
    ensures
        forall|top: bool| (final(ctx)@, raw@) == lowered_raw(env@, old(ctx)@, *e, top),
        final(ctx).inv(),
        step(old(ctx)@, final(ctx)@, weight_of_raw(*e)),
        final(ctx)@.bodies.admits(raw@),
        nested(*e) && old(ctx)@.bodies.ranges_nested() ==> final(ctx)@.bodies.ranges_nested()
            && final(ctx)@.bodies.within(raw@, e.range),
        final(ctx)@.bodies.takes_uid(raw@, final(ctx).first_uid@, final(ctx)@.next_uid),
        final(ctx).first_uid == old(ctx).first_uid,
        raw@.names_below(final(ctx)@.interner.len()),
    decreases *e, 0nat,
{
    match &e.kind {
        syntax::ExprKind::StructLiteral { ty, fields } => {
            proof {
                if nested(*e) {
                    lemma_inside_ty(*ty, e.range);
                    assert forall|k: int| 0 <= k < fields@.len() implies covered(
                        (#[trigger] fields@[k]).value,
                        e.range,
                    ) by {
                        lemma_inside(fields@[k].value, e.range);
                    }
                }
            }
            let ty_id: ExprId = lower_ty(ctx, env, ty, e.range);
            let ghost mid = ctx@;
            let lowered: Vec<(Option<NameWithRange>, ExprId)> = lower_fields(
                ctx,
                env,
                fields,
                e.range,
            );
            proof {
                lemma_step_trans(
                    old(ctx)@,
                    mid,
                    ctx@,
                    weight_of_ty(*ty),
                    weight_of_fields(*fields, fields@.len()),
                );
            }
            Expr::StructLiteral { ty: ty_id, fields: lowered }
        },
        _ => Expr::Missing,
    }
}

/// Lowers a call.
fn lower_call(ctx: &mut Ctx, env: &Env, e: &syntax::Expr) -> (raw: Expr)
    requires
        old(ctx).inv(),
        room(old(ctx)@, weight_of_raw(*e)),
        e.kind is Call,
    ensures
        forall|top: bool| (final(ctx)@, raw@) == lowered_raw(env@, old(ctx)@, *e, top),
        final(ctx).inv(),
        step(old(ctx)@, final(ctx)@, weight_of_raw(*e)),
        final(ctx)@.bodies.admits(raw@),
        nested(*e) && old(ctx)@.bodies.ranges_nested() ==> final(ctx)@.bodies.ranges_nested()
            && final(ctx)@.bodies.within(raw@, e.range),
        final(ctx)@.bodies.takes_uid(raw@, final(ctx).first_uid@, final(ctx)@.next_uid),
        final(ctx).first_uid == old(ctx).first_uid,
        raw@.names_below(final(ctx)@.interner.len()),
    decreases *e, 0nat,
{
    match &e.kind {
        syntax::ExprKind::Call { callee, args } => {
            proof {
                if nested(*e) {
                    lemma_inside(*callee, e.range);
                    match args {
                        Some(args) => {
                            assert forall|k: int| 0 <= k < args@.len() implies covered(
                                #[trigger] args@[k],
                                e.range,
                            ) by {
                                lemma_inside(args@[k], e.range);
                            }
                        },
                        None => {},
                    }
                }
            }
            let callee_id: ExprId = lower_expr(ctx, env, callee, false, e.range);
            let ghost mid = ctx@;
            let lowered: Vec<ExprId> = match args {
                Some(args) => {
                    let lowered: Vec<ExprId> = lower_items(ctx, env, args, e.range);
                    proof {
                        lemma_step_trans(
                            old(ctx)@,
                            mid,
                            ctx@,
                            weight_of_expr(*callee),
                            weight_of_items(*args, args@.len()),
                        );
                    }
                    lowered
                },
                None => Vec::new(),
            };
            Expr::Call { callee: callee_id, args: lowered }
        },
        _ => Expr::Missing,
    }
}

/// Lowers an array literal or array type.
fn lower_array_expr(ctx: &mut Ctx, env: &Env, e: &syntax::Expr) -> (raw: Expr)
    requires
        old(ctx).inv(),
        room(old(ctx)@, weight_of_raw(*e)),
        e.kind is Array,
    ensures
        forall|top: bool| (final(ctx)@, raw@) == lowered_raw(env@, old(ctx)@, *e, top),
        final(ctx).inv(),
        step(old(ctx)@, final(ctx)@, weight_of_raw(*e)),
        final(ctx)@.bodies.admits(raw@),
        nested(*e) && old(ctx)@.bodies.ranges_nested() ==> final(ctx)@.bodies.ranges_nested()
            && final(ctx)@.bodies.within(raw@, e.range),
        final(ctx)@.bodies.takes_uid(raw@, final(ctx).first_uid@, final(ctx)@.next_uid),
        final(ctx).first_uid == old(ctx).first_uid,
        raw@.names_below(final(ctx)@.interner.len()),
    decreases *e, 0nat,
{
    match &e.kind {
        syntax::ExprKind::Array { size, ty, body } => {
            proof {
                if nested(*e) {
                    lemma_inside_ty(*ty, e.range);
                    match body {
                        Some(body) => {
                            assert forall|k: int| 0 <= k < body.items@.len() implies covered(
                                #[trigger] body.items@[k],
                                e.range,
                            ) by {
                                lemma_inside(body.items@[k], e.range);
                            }
                        },
                        None => {},
                    }
                }
            }
            let ty_id: ExprId = lower_ty(ctx, env, ty, e.range);
            let ghost first = ctx@;
            match body {
                Some(body) => {
                    let items: Vec<ExprId> = lower_items(ctx, env, &body.items, e.range);
                    let ghost second = ctx@;
                    proof {
                        lemma_items_weight(body.items, body.items@.len(), body.items@.len());
                    }
                    let size_value: Option<u64> = lower_array_size(
                        ctx,
                        size,
                        Some(items.len()),
                        Ghost(Some(items@)),
                        body.range,
                    );
                    proof {
                        lemma_step_trans(
                            old(ctx)@,
                            first,
                            second,
                            weight_of_ty(*ty),
                            weight_of_items(body.items, body.items@.len()),
                        );
                        lemma_step_trans(
                            old(ctx)@,
                            second,
                            ctx@,
                            weight_of_ty(*ty) + weight_of_items(body.items, body.items@.len()),
                            0,
                        );
                    }
                    Expr::Array { size: size_value, items: Some(items), ty: ty_id }
                },
                None => {
                    let size_value: Option<u64> = lower_array_size(
                        ctx,
                        size,
                        None,
                        Ghost(None),
                        e.range,
                    );
                    proof {
                        lemma_step_trans(old(ctx)@, first, ctx@, weight_of_ty(*ty), 0);
                    }
                    Expr::Array { size: size_value, items: None, ty: ty_id }
                },
            }
        },
        _ => Expr::Missing,
    }
}

/// Lowers the size of an array and checks it against the number of items.
fn lower_array_size(
    ctx: &mut Ctx,
    size: &Option<Option<Box<syntax::Expr>>>,
    count: Option<usize>,
    Ghost(items): Ghost<Option<Seq<ExprId>>>,
    body_range: TextRange,
) -> (value: Option<u64>)
    requires
        old(ctx).inv(),
        match count {
            Some(n) => items matches Some(items) && items.len() == n && n <= u32::MAX,
            None => items is None,
        },
    ensures
        (final(ctx)@, value) == lowered_array_size(old(ctx)@, *size, items, body_range),
        final(ctx).inv(),
        step(old(ctx)@, final(ctx)@, 0),
        final(ctx)@.bodies == old(ctx)@.bodies,
        final(ctx).first_uid == old(ctx).first_uid,
{
    proof {
        lemma_extended_refl(ctx@.bodies);
    }
    let size: &syntax::Expr = match size {
        Some(Some(size)) => size,
        _ => {
            return None;
        },
    };
    match &size.kind {
        syntax::ExprKind::IntLiteral { text } => {
            let literal: Expr = lower_int_literal(ctx, text, size.range);
            let ghost mid = ctx@;
            match (literal, count) {
                (Expr::IntLiteral(n), Some(count)) => {
                    if n != count as u64 {
                        ctx.diagnose(
                            LoweringDiagnosticKind::ArraySizeMismatch {
                                found: count as u32,
                                expected: #[verifier::truncate]
                                (n as u32),
                            },
                            body_range,
                        );
                        proof {
                            lemma_step_trans(old(ctx)@, mid, ctx@, 0, 0);
                        }
                    }
                    Some(n)
                },
                (Expr::IntLiteral(n), None) => Some(n),
                _ => None,
            }
        },
        _ => {
            ctx.diagnose(LoweringDiagnosticKind::ArraySizeNotConst, size.range);
            None
        },
    }
}

/// The expression `c`, if it has a range, lies in `outer`.
pub open spec fn lies_in(bodies: BodiesView, c: ExprId, outer: TextRange) -> bool {
    bodies.expr_ranges.contains_key(c.0) ==> outer.encloses(bodies.expr_ranges[c.0])
}

/// The expressions that the statement `stmt` reads lie in `outer`.
pub open spec fn stmt_lies_in(
    bodies: BodiesView,
    stmt: crate::hir::Stmt,
    outer: TextRange,
) -> bool {
    match stmt {
        crate::hir::Stmt::Expr(e) => lies_in(bodies, e, outer),
        crate::hir::Stmt::LocalDef(l) => {
            &&& lies_in(bodies, bodies.local_defs[l.0 as int].value, outer)
            &&& bodies.local_defs[l.0 as int].ty matches Some(ty) ==> lies_in(bodies, ty, outer)
        },
        crate::hir::Stmt::Assign(a) => {
            &&& lies_in(bodies, bodies.assigns[a.0 as int].source, outer)
            &&& lies_in(bodies, bodies.assigns[a.0 as int].value, outer)
        },
    }
}

/// The expressions that the statement `stmt` reads are in the arena of
/// `bodies`, and so is the definition or assignment that it names.
pub open spec fn stmt_fits(bodies: BodiesView, stmt: crate::hir::Stmt) -> bool {
    match stmt {
        crate::hir::Stmt::Expr(e) => (e.0 as int) < bodies.exprs.len(),
        crate::hir::Stmt::LocalDef(l) => {
            &&& (l.0 as int) < bodies.local_defs.len()
            &&& (bodies.local_defs[l.0 as int].value.0 as int) < bodies.exprs.len()
            &&& bodies.local_defs[l.0 as int].ty matches Some(ty) ==> (ty.0 as int)
                < bodies.exprs.len()
        },
        crate::hir::Stmt::Assign(a) => {
            &&& (a.0 as int) < bodies.assigns.len()
            &&& (bodies.assigns[a.0 as int].source.0 as int) < bodies.exprs.len()
            &&& (bodies.assigns[a.0 as int].value.0 as int) < bodies.exprs.len()
        },
    }
}

/// Lowers a statement.
fn lower_stmt(
    ctx: &mut Ctx,
    env: &Env,
    stmt: &syntax::Stmt,
    around: TextRange,
) -> (lowered: crate::hir::Stmt)
    requires
        old(ctx).inv(),
        room(old(ctx)@, weight_of_stmt(*stmt)),
    ensures
        (final(ctx)@, lowered) == lowered_stmt(env@, old(ctx)@, *stmt, around),
        final(ctx).inv(),
        step(old(ctx)@, final(ctx)@, (weight_of_stmt(*stmt) - 1) as nat),
        stmt_fits(final(ctx)@.bodies, lowered),
        nested_stmt(*stmt, around) && old(ctx)@.bodies.ranges_nested()
            ==> final(ctx)@.bodies.ranges_nested() && stmt_lies_in(
            final(ctx)@.bodies,
            lowered,
            around,
        ),
        final(ctx).first_uid == old(ctx).first_uid,
    decreases *stmt, 1nat,
{
    match stmt {
        syntax::Stmt::Define(_) => lower_local_define(ctx, env, stmt, around),
        syntax::Stmt::Assign { .. } => lower_assignment(ctx, env, stmt, around),
        syntax::Stmt::Expr { expr } => {
            let expr_id: ExprId = lower_expr(ctx, env, expr, false, around);
            crate::hir::Stmt::Expr(expr_id)
        },
    }
}

/// Lowers a local definition and binds its name in the innermost scope.
fn lower_local_define(
    ctx: &mut Ctx,
    env: &Env,
    stmt: &syntax::Stmt,
    around: TextRange,
) -> (lowered: crate::hir::Stmt)
    requires
        old(ctx).inv(),
        room(old(ctx)@, weight_of_stmt(*stmt)),
        stmt is Define,
    ensures
        (final(ctx)@, lowered) == lowered_stmt(env@, old(ctx)@, *stmt, around),
        final(ctx).inv(),
        step(old(ctx)@, final(ctx)@, (weight_of_stmt(*stmt) - 1) as nat),
        stmt_fits(final(ctx)@.bodies, lowered),
        nested_stmt(*stmt, around) && old(ctx)@.bodies.ranges_nested()
            ==> final(ctx)@.bodies.ranges_nested() && stmt_lies_in(
            final(ctx)@.bodies,
            lowered,
            around,
        ),
        final(ctx).first_uid == old(ctx).first_uid,
    decreases *stmt, 0nat,
{
    match stmt {
        syntax::Stmt::Define(def) => {
            let ty: Option<ExprId> = lower_present_ty(ctx, env, &def.ty);
            let ghost first = ctx@;
            let value: ExprId = lower_expr(ctx, env, &def.value, false, around);
            let ghost second = ctx@;
            let id: LocalDefId = ctx.alloc_local_def(
                LocalDef { mutable: def.mutable, ty, value, range: def.range },
            );
            let ghost third = ctx@;
            proof {
                lemma_step_trans(
                    old(ctx)@,
                    first,
                    second,
                    weight_of_ty(def.ty),
                    weight_of_expr(def.value),
                );
                lemma_step_trans(
                    old(ctx)@,
                    second,
                    third,
                    weight_of_ty(def.ty) + weight_of_expr(def.value),
                    1,
                );
            }
            match &def.name {
                Some(ident) => {
                    let key: Key = ctx.intern(ident.text.as_str());
                    let ghost fourth = ctx@;
                    ctx.bind_local(key, id);
                    proof {
                        lemma_step_trans(
                            old(ctx)@,
                            third,
                            fourth,
                            weight_of_ty(def.ty) + weight_of_expr(def.value) + 1,
                            1,
                        );
                        lemma_step_trans(
                            old(ctx)@,
                            fourth,
                            ctx@,
                            weight_of_ty(def.ty) + weight_of_expr(def.value) + 2,
                            0,
                        );
                    }
                },
                None => {},
            }
            crate::hir::Stmt::LocalDef(id)
        },
        _ => crate::hir::Stmt::Expr(ExprId(0)),
    }
}

/// Lowers an assignment.
fn lower_assignment(
    ctx: &mut Ctx,
    env: &Env,
    stmt: &syntax::Stmt,
    around: TextRange,
) -> (lowered: crate::hir::Stmt)
    requires
        old(ctx).inv(),
        room(old(ctx)@, weight_of_stmt(*stmt)),
        stmt is Assign,
    ensures
        (final(ctx)@, lowered) == lowered_stmt(env@, old(ctx)@, *stmt, around),
        final(ctx).inv(),
        step(old(ctx)@, final(ctx)@, (weight_of_stmt(*stmt) - 1) as nat),
        stmt_fits(final(ctx)@.bodies, lowered),
        nested_stmt(*stmt, around) && old(ctx)@.bodies.ranges_nested()
            ==> final(ctx)@.bodies.ranges_nested() && stmt_lies_in(
            final(ctx)@.bodies,
            lowered,
            around,
        ),
        final(ctx).first_uid == old(ctx).first_uid,
    decreases *stmt, 0nat,
{
    match stmt {
        syntax::Stmt::Assign { source, value, range } => {
            let source_id: ExprId = lower_expr(ctx, env, source, false, around);
            let ghost first = ctx@;
            let value_id: ExprId = lower_expr(ctx, env, value, false, around);
            let ghost second = ctx@;
            let id: AssignId = ctx.alloc_assign(
                Assign { source: source_id, value: value_id, range: *range },
            );
            proof {
                lemma_step_trans(
                    old(ctx)@,
                    first,
                    second,
                    weight_of_expr(*source),
                    weight_of_expr(*value),
                );
                lemma_step_trans(
                    old(ctx)@,
                    second,
                    ctx@,
                    weight_of_expr(*source) + weight_of_expr(*value),
                    1,
                );
            }
            crate::hir::Stmt::Assign(id)
        },
        _ => crate::hir::Stmt::Expr(ExprId(0)),
    }
}

/// Lowers the statements `stmts`, in order.
fn lower_stmts(
    ctx: &mut Ctx,
    env: &Env,
    stmts: &Vec<syntax::Stmt>,
    around: TextRange,
) -> (ids: Vec<StmtId>)
    requires
        old(ctx).inv(),
        room(old(ctx)@, weight_of_stmts(*stmts, stmts@.len())),
    ensures
        (final(ctx)@, ids@) == lowered_stmts(env@, old(ctx)@, *stmts, stmts@.len(), around),
        final(ctx).inv(),
        step(old(ctx)@, final(ctx)@, weight_of_stmts(*stmts, stmts@.len())),
        forall|k: int| 0 <= k < ids@.len() ==> final(ctx)@.bodies.stmt_admitted(#[trigger] ids@[k]),
        ids@.len() == stmts@.len(),
        (forall|k: int| 0 <= k < stmts@.len() ==> nested_stmt(#[trigger] stmts@[k], around))
            && old(ctx)@.bodies.ranges_nested()
            ==> final(ctx)@.bodies.ranges_nested() && forall|k: int|
            0 <= k < ids@.len() ==> final(ctx)@.bodies.stmt_within(#[trigger] ids@[k], around),
        final(ctx).first_uid == old(ctx).first_uid,
    decreases *stmts, stmts@.len(),
{
    let mut ids: Vec<StmtId> = Vec::new();
    let mut i: usize = 0;
    proof {
        lemma_extended_refl(ctx@.bodies);
    }
    while i < stmts.len()
        invariant
            i <= stmts@.len(),
            ctx.inv(),
            old(ctx)@.bodies.wf(),
            room(old(ctx)@, weight_of_stmts(*stmts, stmts@.len())),
            ids@.len() == i,
            ctx.first_uid == old(ctx).first_uid,
            (ctx@, ids@) == lowered_stmts(env@, old(ctx)@, *stmts, i as nat, around),
            step(old(ctx)@, ctx@, weight_of_stmts(*stmts, i as nat)),
            forall|k: int| 0 <= k < ids@.len() ==> ctx@.bodies.stmt_admitted(#[trigger] ids@[k]),
            (forall|k: int| 0 <= k < stmts@.len() ==> nested_stmt(#[trigger] stmts@[k], around))
                && old(ctx)@.bodies.ranges_nested() ==> ctx@.bodies.ranges_nested() && forall|
                k: int,
            | 0 <= k < ids@.len() ==> ctx@.bodies.stmt_within(#[trigger] ids@[k], around),
        decreases stmts.len() - i,
    {
        proof {
            lemma_stmts_weight(*stmts, (i + 1) as nat, stmts@.len());
        }
        let ghost before = ctx@;
        let stmt: crate::hir::Stmt = lower_stmt(ctx, env, &stmts[i], around);
        let ghost lowered = ctx@;
        let id: StmtId = ctx.alloc_stmt(stmt);
        proof {
            lemma_step_trans(
                before,
                lowered,
                ctx@,
                (weight_of_stmt(stmts@[i as int]) - 1) as nat,
                1,
            );
            lemma_step_trans(
                old(ctx)@,
                before,
                ctx@,
                weight_of_stmts(*stmts, i as nat),
                weight_of_stmt(stmts@[i as int]),
            );
            assert forall|k: int| 0 <= k < ids@.len() implies ctx@.bodies.stmt_admitted(
                #[trigger] ids@[k],
            ) by {
                lemma_stmt_admitted_stable(before.bodies, ctx@.bodies, ids@[k]);
            }
            assert(ctx@.bodies.stmt_admitted(id));
            if (forall|k: int| 0 <= k < stmts@.len() ==> nested_stmt(#[trigger] stmts@[k], around))
                && old(ctx)@.bodies.ranges_nested() {
                assert(nested_stmt(stmts@[i as int], around));
                assert forall|k: int| 0 <= k < ids@.len() implies ctx@.bodies.stmt_within(
                    #[trigger] ids@[k],
                    around,
                ) by {
                    lemma_stmt_within_stable(before.bodies, ctx@.bodies, ids@[k], around);
                }
                assert(ctx@.bodies.stmt_within(id, around));
            }
        }
        ids.push(id);
        i = i + 1;
    }
    ids
}

/// Lowers a block: its statements in a scope of their own, then the
/// expression at its end.
fn lower_block(ctx: &mut Ctx, env: &Env, e: &syntax::Expr) -> (raw: Expr)
    requires
        old(ctx).inv(),
        room(old(ctx)@, weight_of_raw(*e)),
        e.kind is Block,
    ensures
        forall|top: bool| (final(ctx)@, raw@) == lowered_raw(env@, old(ctx)@, *e, top),
        final(ctx).inv(),
        step(old(ctx)@, final(ctx)@, weight_of_raw(*e)),
        final(ctx)@.bodies.admits(raw@),
        nested(*e) && old(ctx)@.bodies.ranges_nested() ==> final(ctx)@.bodies.ranges_nested()
            && final(ctx)@.bodies.within(raw@, e.range),
        final(ctx)@.bodies.takes_uid(raw@, final(ctx).first_uid@, final(ctx)@.next_uid),
        final(ctx).first_uid == old(ctx).first_uid,
        raw@.names_below(final(ctx)@.interner.len()),
    decreases *e, 0nat,
{
    match &e.kind {
        syntax::ExprKind::Block { stmts, tail_expr } => {
            proof {
                if nested(*e) {
                    lemma_inside(*tail_expr, e.range);
                }
            }
            ctx.enter_scope();
            let ghost entered = ctx@;
            let ids: Vec<StmtId> = lower_stmts(ctx, env, stmts, e.range);
            let ghost first = ctx@;
            let tail: Option<ExprId> = lower_present(ctx, env, tail_expr);
            let ghost second = ctx@;
            ctx.leave_scope();
            proof {
                lemma_step_trans(
                    old(ctx)@,
                    entered,
                    first,
                    0,
                    weight_of_stmts(*stmts, stmts@.len()),
                );
                lemma_step_trans(
                    old(ctx)@,
                    first,
                    second,
                    weight_of_stmts(*stmts, stmts@.len()),
                    weight_of_expr(*tail_expr),
                );
                lemma_step_trans(
                    old(ctx)@,
                    second,
                    ctx@,
                    weight_of_stmts(*stmts, stmts@.len()) + weight_of_expr(*tail_expr),
                    0,
                );
                assert forall|k: int| 0 <= k < ids@.len() implies ctx@.bodies.stmt_admitted(
                    #[trigger] ids@[k],
                ) by {
                    lemma_stmt_admitted_stable(first.bodies, ctx@.bodies, ids@[k]);
                }
                if nested(*e) && old(ctx)@.bodies.ranges_nested() {
                    assert forall|k: int| 0 <= k < ids@.len() implies ctx@.bodies.stmt_within(
                        #[trigger] ids@[k],
                        e.range,
                    ) by {
                        lemma_stmt_within_stable(first.bodies, ctx@.bodies, ids@[k], e.range);
                    }
                }
            }
            Expr::Block { stmts: ids, tail_expr: tail }
        },
        _ => Expr::Missing,
    }
}

/// Lowers a definition at the root of a file.
fn lower_global(ctx: &mut Ctx, env: &Env, def: &syntax::Define)
    requires
        old(ctx).inv(),
        room(old(ctx)@, weight_of_global(*def)),
    ensures
        final(ctx)@ == lowered_global(env@, old(ctx)@, *def),
        final(ctx).inv(),
        grows(old(ctx)@, final(ctx)@, weight_of_global(*def)),
        def.name matches Some(ident) ==> exists|key: u32|
            (key as int) < final(ctx)@.interner.len() && final(ctx)@.interner[key as int]
                == ident.text@ && #[trigger] final(ctx)@.bodies.global_bodies.contains_key(key),
        nested_global(*def) && old(ctx)@.bodies.ranges_nested()
            ==> final(ctx)@.bodies.ranges_nested(),
        final(ctx).first_uid == old(ctx).first_uid,
{
    let ident: &syntax::Ident = match &def.name {
        Some(ident) => ident,
        None => {
            proof {
                lemma_extended_refl(ctx@.bodies);
            }
            return ;
        },
    };
    let key: Key = ctx.intern(ident.text.as_str());
    let name = Name(key);
    let ghost first = ctx@;
    // a second definition of a name is ignored: indexing reports it
    if ctx.bodies.has_global(name) {
        return ;
    }
    match &def.ty {
        Some(ty) => {
            let ty_id: ExprId = lower_expr(ctx, env, &ty.expr, false, def.range);
            let ghost lowered = ctx@;
            ctx.set_global_ty(name, ty_id);
            proof {
                lemma_grows_trans(first, lowered, ctx@, weight_of_ty(def.ty), 0);
            }
        },
        None => {
            proof {
                lemma_extended_refl(ctx@.bodies);
            }
        },
    }
    let ghost second = ctx@;
    let body: ExprId = lower_expr(ctx, env, &def.value, true, def.range);
    let ghost third = ctx@;
    ctx.set_global_body(name, body);
    proof {
        lemma_grows_trans(old(ctx)@, first, second, 1, weight_of_ty(def.ty));
        lemma_grows_trans(
            old(ctx)@,
            second,
            third,
            1 + weight_of_ty(def.ty),
            weight_of_expr(def.value),
        );
        lemma_grows_trans(old(ctx)@, third, ctx@, weight_of_global(*def), 0);
        assert(ctx@.bodies.global_bodies.contains_key(key.0));
    }
}

/// Every definition among the first `n` that has a name has a body in
/// `bodies`, under the key that `interner` has for the name.
pub open spec fn globals_have_bodies(
    defs: Seq<syntax::Define>,
    n: int,
    interner: Seq<Seq<char>>,
    bodies: BodiesView,
) -> bool {
    forall|i: int|
        0 <= i < n && (#[trigger] defs[i]).name is Some ==> exists|key: u32|
            (key as int) < interner.len() && interner[key as int] == defs[i].name->0.text@
                && #[trigger] bodies.global_bodies.contains_key(key)
}

/// Lowers the file with the syntax tree `root` into its bodies, and
/// reports what is wrong with it.
///
/// The definitions at the root are lowered in order. Nothing stops
/// lowering: a piece that is missing or wrong becomes a `Missing`
/// expression, and every definition with a name gets a body. The result
/// is a function of the arguments alone.
///
/// Every expression of the bodies has a range: that of the syntax it
/// was lowered from, and for the expression of a missing piece that of
/// the expression, or of the definition, that lacks the piece. Where
/// the ranges of the syntax tree are nested, so are those of the
/// bodies. The unique identifiers of distinct types and struct
/// declarations are new and differ from each other, and every name that
/// the bodies and the diagnostics hold is a key of the interner.
pub fn lower(
    root: &syntax::Root,
    file_name: &str,
    index: &Index,
    uid_gen: &mut UIDGenerator,
    interner: &mut Interner,
    host: &Host,
) -> (result: (Bodies, Vec<LoweringDiagnostic>))
    requires
        old(interner).wf(),
        old(interner)@.len() + root.weight() <= u32::MAX,
        old(uid_gen).next + root.weight() <= u32::MAX,
    ensures
        ({
            let env = EnvView { file_name: file_name@, index: index@, host: host@ };
            let start = LowerState::initial(old(uid_gen).next, old(interner)@);
            let end = lowered_globals(env, start, root.defs, root.defs@.len());
            &&& result.0@ == end.bodies
            &&& result.1@.map_values(|d: LoweringDiagnostic| d@) == end.diagnostics
            &&& final(uid_gen).next == end.next_uid
            &&& final(interner)@ == end.interner
        }),
        result.0@.wf(),
        final(interner).wf(),
        prefix_of(old(interner)@, final(interner)@),
        old(uid_gen).next <= final(uid_gen).next,
        globals_have_bodies(root.defs@, root.defs@.len() as int, final(interner)@, result.0@),
        root.ranges_nested() ==> result.0@.ranges_nested(),
        result.0@.uids_in_order(old(uid_gen).next, final(uid_gen).next),
        result.0@.names_known(final(interner)@.len()),
        forall|i: int|
            0 <= i < result.1@.len() ==> (#[trigger] result.1@[i])@.names_below(
                final(interner)@.len(),
            ),
{
    let env = Env { file_name, index, host };
    let mut taken = Interner::new();
    std::mem::swap(interner, &mut taken);
    let scope: IdMap = new_id_map();
    let mut scopes: Vec<IdMap> = Vec::new();
    scopes.push(scope);
    let mut ctx = Ctx {
        bodies: Bodies::new(),
        uid_gen: UIDGenerator { next: uid_gen.next },
        interner: taken,
        diagnostics: Vec::new(),
        scopes,
        params: new_id_map(),
        param_ranges: Vec::new(),
        first_uid: Ghost(uid_gen.next),
    };
    let ghost start = ctx@;
    proof {
        assert(scope@ =~= Map::<u32, u32>::empty());
        assert(ctx@.scopes =~= seq![Map::<u32, u32>::empty()]);
        assert(ctx@.params =~= Map::<u32, (u32, TextRange)>::empty());
        assert(ctx@.diagnostics =~= Seq::empty());
        assert(start == LowerState::initial(old(uid_gen).next, old(interner)@));
        lemma_extended_refl(start.bodies);
    }
    let mut i: usize = 0;
    while i < root.defs.len()
        invariant
            i <= root.defs@.len(),
            ctx.inv(),
            start.bodies.wf(),
            room(start, root.weight()),
            ctx@ == lowered_globals(env@, start, root.defs, i as nat),
            grows(start, ctx@, weight_of_globals(root.defs, i as nat)),
            globals_have_bodies(root.defs@, i as int, ctx@.interner, ctx@.bodies),
            root.ranges_nested() ==> ctx@.bodies.ranges_nested(),
            ctx.first_uid@ == old(uid_gen).next,
        decreases root.defs.len() - i,
    {
        proof {
            crate::weight::lemma_globals_weight(root.defs, (i + 1) as nat, root.defs@.len());
        }
        let ghost before = ctx@;
        lower_global(&mut ctx, &env, &root.defs[i]);
        proof {
            lemma_grows_trans(
                start,
                before,
                ctx@,
                weight_of_globals(root.defs, i as nat),
                weight_of_global(root.defs@[i as int]),
            );
            assert forall|j: int|
                0 <= j < i + 1 && (#[trigger] root.defs@[j]).name is Some implies exists|
                key: u32,
            |
                (key as int) < ctx@.interner.len() && ctx@.interner[key as int]
                    == root.defs@[j].name->0.text@
                    && #[trigger] ctx@.bodies.global_bodies.contains_key(key) by {
                if j < i {
                    let key = choose|key: u32|
                        (key as int) < before.interner.len() && before.interner[key as int]
                            == root.defs@[j].name->0.text@
                            && #[trigger] before.bodies.global_bodies.contains_key(key);
                    assert(ctx@.bodies.global_bodies.contains_key(key));
                }
            }
        }
        i = i + 1;
    }
    let ghost end = ctx@;
    let Ctx { bodies, uid_gen: minted, interner: mut filled, diagnostics, .. } = ctx;
    proof {
        assert forall|i: int| 0 <= i < diagnostics@.len() implies (
        #[trigger] diagnostics@[i])@.names_below(end.interner.len()) by {
            assert(diagnostics@[i]@ == end.diagnostics[i]);
        }
    }
    std::mem::swap(interner, &mut filled);
    uid_gen.next = minted.next;
    (bodies, diagnostics)
}

/// Lowers the file as `lower` does, where the generator of unique
/// identifiers and the interner have room for what lowering the file can
/// add (see `Root::fits`). Where they have not, nothing is lowered, and
/// both stay as they are.
pub fn try_lower(
    root: &syntax::Root,
    file_name: &str,
    index: &Index,
    uid_gen: &mut UIDGenerator,
    interner: &mut Interner,
    host: &Host,
) -> (result: Option<(Bodies, Vec<LoweringDiagnostic>)>)
    requires
        old(interner).wf(),
    ensures
        result is Some <==> old(interner)@.len() + root.weight() <= u32::MAX && old(uid_gen).next
            + root.weight() <= u32::MAX,
        final(interner).wf(),
        prefix_of(old(interner)@, final(interner)@),
        old(uid_gen).next <= final(uid_gen).next,
        result is None ==> final(interner)@ == old(interner)@ && final(uid_gen).next == old(
            uid_gen,
        ).next,
        result matches Some(lowered) ==> ({
            let env = EnvView { file_name: file_name@, index: index@, host: host@ };
            let start = LowerState::initial(old(uid_gen).next, old(interner)@);
            let end = lowered_globals(env, start, root.defs, root.defs@.len());
            &&& lowered.0@ == end.bodies
            &&& lowered.1@.map_values(|d: LoweringDiagnostic| d@) == end.diagnostics
            &&& final(uid_gen).next == end.next_uid
            &&& final(interner)@ == end.interner
            &&& lowered.0@.wf()
            &&& globals_have_bodies(
                root.defs@,
                root.defs@.len() as int,
                final(interner)@,
                lowered.0@,
            )
            &&& root.ranges_nested() ==> lowered.0@.ranges_nested()
            &&& lowered.0@.uids_in_order(old(uid_gen).next, final(uid_gen).next)
            &&& lowered.0@.names_known(final(interner)@.len())
            &&& forall|i: int|
                0 <= i < lowered.1@.len() ==> (#[trigger] lowered.1@[i])@.names_below(
                    final(interner)@.len(),
                )
        }),
{
    if !root.fits(uid_gen, interner) {
        return None;
    }
    Some(lower(root, file_name, index, uid_gen, interner, host))
}

} // verus!
