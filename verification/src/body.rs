//! The bodies of one file: the arenas of its nodes, the range of text of
//! each expression, and the expressions of its globals.

use crate::hir::{
    Assign, AssignId, Comptime, ComptimeId, Expr, ExprId, ExprView, Lambda, LambdaId, LambdaView,
    LocalDef, LocalDefId, Stmt, StmtId,
};
use crate::names::{FileName, Name};
use crate::interner::Key;
use crate::store::{
    alloc_assign, alloc_comptime, alloc_expr, alloc_lambda, alloc_local_def, alloc_stmt,
    assign_at, assigns_in, comptime_at, comptimes_in, count_comptimes, expr_at, exprs_in,
    id_map_get, id_map_insert, id_set_contains, id_set_insert, id_set_keys, insert_range,
    lambda_at, lambdas_in, local_def_at, local_defs_in, new_assigns, new_comptimes, new_exprs,
    new_id_map, new_id_set, new_lambdas, new_local_defs, new_ranges, new_stmts, range_at,
    ranges_in, stmt_at, stmts_in, IdMap, IdSet, RangeMap,
};
use crate::text_range::TextRange;
use la_arena::Arena;
use vstd::prelude::*;

verus! {

#[derive(Debug)]
pub struct Bodies {
    local_defs: Arena<LocalDef>,
    assigns: Arena<Assign>,
    stmts: Arena<Stmt>,
    exprs: Arena<Expr>,
    expr_ranges: RangeMap,
    global_tys: IdMap,
    global_bodies: IdMap,
    lambdas: Arena<Lambda>,
    comptimes: Arena<Comptime>,
    imports: IdSet,
}

/// The bodies of a file as plain mathematics. The arenas are sequences;
/// the tables of globals go from a name's key to the raw index of an
/// expression; the imports are the keys of the imported files' names.
pub struct BodiesView {
    pub local_defs: Seq<LocalDef>,
    pub assigns: Seq<Assign>,
    pub stmts: Seq<Stmt>,
    pub exprs: Seq<ExprView>,
    pub expr_ranges: Map<u32, TextRange>,
    pub global_tys: Map<u32, u32>,
    pub global_bodies: Map<u32, u32>,
    pub lambdas: Seq<LambdaView>,
    pub comptimes: Seq<Comptime>,
    pub imports: Set<u32>,
}

impl View for Bodies {
    type V = BodiesView;

    closed spec fn view(&self) -> BodiesView {
        BodiesView {
            local_defs: local_defs_in(self.local_defs),
            assigns: assigns_in(self.assigns),
            stmts: stmts_in(self.stmts),
            exprs: exprs_in(self.exprs).map_values(|e: Expr| e@),
            expr_ranges: ranges_in(self.expr_ranges),
            global_tys: self.global_tys@,
            global_bodies: self.global_bodies@,
            lambdas: lambdas_in(self.lambdas).map_values(|l: Lambda| l@),
            comptimes: comptimes_in(self.comptimes),
            imports: self.imports@,
        }
    }
}

/// `later` starts with the items of `earlier`.
pub open spec fn prefix_of<T>(earlier: Seq<T>, later: Seq<T>) -> bool {
    &&& earlier.len() <= later.len()
    &&& forall|i: int| 0 <= i < earlier.len() ==> #[trigger] later[i] == earlier[i]
}

impl BodiesView {
    /// Bodies without any node, global or import.
    pub open spec fn empty() -> BodiesView {
        BodiesView {
            local_defs: Seq::empty(),
            assigns: Seq::empty(),
            stmts: Seq::empty(),
            exprs: Seq::empty(),
            expr_ranges: Map::empty(),
            global_tys: Map::empty(),
            global_bodies: Map::empty(),
            lambdas: Seq::empty(),
            comptimes: Seq::empty(),
            imports: Set::empty(),
        }
    }

    /// The bodies with `expr` appended to the expressions, covering `range`.
    pub open spec fn with_expr(self, expr: ExprView, range: TextRange) -> BodiesView {
        BodiesView {
            exprs: self.exprs.push(expr),
            expr_ranges: self.expr_ranges.insert(self.exprs.len() as u32, range),
            ..self
        }
    }

    pub open spec fn with_stmt(self, stmt: Stmt) -> BodiesView {
        BodiesView { stmts: self.stmts.push(stmt), ..self }
    }

    pub open spec fn with_local_def(self, def: LocalDef) -> BodiesView {
        BodiesView { local_defs: self.local_defs.push(def), ..self }
    }

    pub open spec fn with_assign(self, assign: Assign) -> BodiesView {
        BodiesView { assigns: self.assigns.push(assign), ..self }
    }

    pub open spec fn with_lambda(self, lambda: LambdaView) -> BodiesView {
        BodiesView { lambdas: self.lambdas.push(lambda), ..self }
    }

    pub open spec fn with_comptime(self, comptime: Comptime) -> BodiesView {
        BodiesView { comptimes: self.comptimes.push(comptime), ..self }
    }

    pub open spec fn with_global_ty(self, name: Name, ty: ExprId) -> BodiesView {
        BodiesView { global_tys: self.global_tys.insert(name.0.0, ty.0), ..self }
    }

    pub open spec fn with_global_body(self, name: Name, body: ExprId) -> BodiesView {
        BodiesView { global_bodies: self.global_bodies.insert(name.0.0, body.0), ..self }
    }

    pub open spec fn with_import(self, file: FileName) -> BodiesView {
        BodiesView { imports: self.imports.insert(file.0.0), ..self }
    }

    /// The expression `c` is read by the statement `s`: it is the
    /// statement's expression, or the type or value of its definition, or
    /// a side of its assignment.
    pub open spec fn stmt_reads(self, s: StmtId, c: ExprId) -> bool {
        (s.0 as int) < self.stmts.len() && match self.stmts[s.0 as int] {
            Stmt::Expr(e) => c == e,
            Stmt::LocalDef(l) => (l.0 as int) < self.local_defs.len() && (c
                == self.local_defs[l.0 as int].value || self.local_defs[l.0 as int].ty == Some(c)),
            Stmt::Assign(a) => (a.0 as int) < self.assigns.len() && (c
                == self.assigns[a.0 as int].source || c == self.assigns[a.0 as int].value),
        }
    }

    /// The expression `c` is a direct sub-expression of an expression `e`
    /// of these bodies.
    pub open spec fn reads(self, e: ExprView, c: ExprId) -> bool {
        match e {
            ExprView::Cast { expr, ty } => c == expr || c == ty,
            ExprView::Ref { expr, .. } => c == expr,
            ExprView::Deref { pointer } => c == pointer,
            ExprView::Binary { lhs, rhs, .. } => c == lhs || c == rhs,
            ExprView::Unary { expr, .. } => c == expr,
            ExprView::Array { items, ty, .. } => c == ty || (items is Some && exists|k: int|
                0 <= k < items->0.len() && #[trigger] items->0[k] == c),
            ExprView::Index { array, index } => c == array || c == index,
            ExprView::Block { stmts, tail_expr } => tail_expr == Some(c) || exists|k: int|
                0 <= k < stmts.len() && self.stmt_reads(#[trigger] stmts[k], c),
            ExprView::If { condition, body, else_branch } => c == condition || c == body
                || else_branch == Some(c),
            ExprView::While { condition, body } => condition == Some(c) || c == body,
            ExprView::Path { previous, .. } => c == previous,
            ExprView::Call { callee, args } => c == callee || exists|k: int|
                0 <= k < args.len() && #[trigger] args[k] == c,
            ExprView::Lambda(l) => (l.0 as int) < self.lambdas.len() && {
                let lambda = self.lambdas[l.0 as int];
                c == lambda.body || lambda.return_ty == Some(c) || exists|k: int|
                    0 <= k < lambda.params.len() && (#[trigger] lambda.params[k]).ty == c
            },
            ExprView::Comptime(id) => (id.0 as int) < self.comptimes.len()
                && self.comptimes[id.0 as int].body == c,
            ExprView::Distinct { ty, .. } => c == ty,
            ExprView::StructDecl { fields, .. } => exists|k: int|
                0 <= k < fields.len() && (#[trigger] fields[k]).1 == c,
            ExprView::StructLiteral { ty, fields } => c == ty || exists|k: int|
                0 <= k < fields.len() && (#[trigger] fields[k]).1 == c,
            _ => false,
        }
    }

    /// The expression `c` is a direct sub-expression of the expression at
    /// index `i`.
    pub open spec fn is_child(self, i: int, c: ExprId) -> bool {
        0 <= i < self.exprs.len() && self.reads(self.exprs[i], c)
    }

    /// The statement `s` and the definition or assignment that it names
    /// are in their arenas.
    pub open spec fn stmt_in_arena(self, s: StmtId) -> bool {
        (s.0 as int) < self.stmts.len() && match self.stmts[s.0 as int] {
            crate::hir::Stmt::Expr(_) => true,
            crate::hir::Stmt::LocalDef(l) => (l.0 as int) < self.local_defs.len(),
            crate::hir::Stmt::Assign(a) => (a.0 as int) < self.assigns.len(),
        }
    }

    /// The nodes of other arenas that the expression `e` names are in
    /// their arenas.
    pub open spec fn names_in_arena(self, e: ExprView) -> bool {
        match e {
            ExprView::Block { stmts, .. } => forall|k: int|
                0 <= k < stmts.len() ==> self.stmt_in_arena(#[trigger] stmts[k]),
            ExprView::Local(l) => (l.0 as int) < self.local_defs.len(),
            ExprView::Lambda(l) => (l.0 as int) < self.lambdas.len(),
            ExprView::Comptime(c) => (c.0 as int) < self.comptimes.len(),
            _ => true,
        }
    }

    /// The nodes of other arenas that the expression at index `i` names
    /// are in their arenas.
    pub open spec fn refs_in_arena(self, i: int) -> bool {
        self.names_in_arena(self.exprs[i])
    }

    /// The expression `e` can be appended: the nodes that it names are in
    /// their arenas, and its sub-expressions are in the arena already.
    pub open spec fn admits(self, e: ExprView) -> bool {
        &&& self.names_in_arena(e)
        &&& forall|c: ExprId| #[trigger] self.reads(e, c) ==> (c.0 as int) < self.exprs.len()
    }

    /// A block can name the statement `s`: it is in its arena, and the
    /// expressions that it reads are in theirs.
    pub open spec fn stmt_admitted(self, s: StmtId) -> bool {
        &&& self.stmt_in_arena(s)
        &&& forall|c: ExprId| #[trigger] self.stmt_reads(s, c) ==> (c.0 as int) < self.exprs.len()
    }

    /// `later` holds what these bodies hold, at the same places, and
    /// maybe more.
    pub open spec fn extended_by(self, later: BodiesView) -> bool {
        &&& prefix_of(self.local_defs, later.local_defs)
        &&& prefix_of(self.assigns, later.assigns)
        &&& prefix_of(self.stmts, later.stmts)
        &&& prefix_of(self.exprs, later.exprs)
        &&& prefix_of(self.lambdas, later.lambdas)
        &&& prefix_of(self.comptimes, later.comptimes)
        &&& forall|key: u32|
            (key as int) < self.exprs.len() ==> (#[trigger] later.expr_ranges.contains_key(key))
                == self.expr_ranges.contains_key(key)
        &&& forall|key: u32|
            #[trigger] self.expr_ranges.contains_key(key) ==> later.expr_ranges[key]
                == self.expr_ranges[key]
        &&& forall|key: u32|
            #[trigger] self.global_bodies.contains_key(key) ==> later.global_bodies.contains_key(
                key,
            ) && later.global_bodies[key] == self.global_bodies[key]
        &&& forall|key: u32| #[trigger] self.imports.contains(key) ==> later.imports.contains(key)
    }

    /// The bodies are well formed: an expression names only nodes that
    /// are in their arenas, its sub-expressions stand before it in the
    /// arena of expressions, the tables name only expressions of the
    /// arena, and every expression of the arena has a range. So the
    /// expressions form no cycle, and the table of ranges is total.
    /// Every expression and every compile-time block has an index of
    /// 32 bits.
    pub open spec fn wf(self) -> bool {
        &&& self.exprs.len() <= u32::MAX
        &&& self.comptimes.len() <= u32::MAX
        &&& forall|key: u32|
            (key as int) < self.exprs.len() ==> #[trigger] self.expr_ranges.contains_key(key)
        &&& forall|i: int| 0 <= i < self.exprs.len() ==> #[trigger] self.refs_in_arena(i)
        &&& forall|i: int, c: ExprId| #[trigger] self.is_child(i, c) ==> (c.0 as int) < i
        &&& forall|key: u32|
            self.global_bodies.contains_key(key) ==> (#[trigger] self.global_bodies[key] as int)
                < self.exprs.len()
        &&& forall|key: u32|
            self.global_tys.contains_key(key) ==> (#[trigger] self.global_tys[key] as int)
                < self.exprs.len()
        &&& forall|key: u32|
            self.expr_ranges.contains_key(key) ==> (key as int) < self.exprs.len()
    }

    /// Every name and file name that the bodies hold has a key below
    /// `count`: in the expressions, in the parameters of the lambdas, in
    /// the tables of globals and among the imports.
    pub open spec fn names_known(self, count: nat) -> bool {
        &&& forall|i: int|
            0 <= i < self.exprs.len() ==> (#[trigger] self.exprs[i]).names_below(count)
        &&& forall|i: int|
            0 <= i < self.lambdas.len() ==> (#[trigger] self.lambdas[i]).names_below(count)
        &&& forall|key: u32|
            #[trigger] self.global_bodies.contains_key(key) ==> (key as nat) < count
        &&& forall|key: u32| #[trigger] self.global_tys.contains_key(key) ==> (key as nat) < count
        &&& forall|key: u32| #[trigger] self.imports.contains(key) ==> (key as nat) < count
    }

    /// The unique identifiers of the distinct types and struct
    /// declarations are at least `from` and below `next`, and grow with
    /// the index of the expression: no two expressions have one.
    pub open spec fn uids_in_order(self, from: u32, next: u32) -> bool {
        &&& forall|i: int|
            0 <= i < self.exprs.len() && (#[trigger] self.exprs[i]).uid() is Some ==> from
                <= self.exprs[i].uid()->0 < next
        &&& forall|i: int, j: int|
            0 <= i < j < self.exprs.len() && (#[trigger] self.exprs[i]).uid() is Some && (
            #[trigger] self.exprs[j]).uid() is Some ==> self.exprs[i].uid()->0
                < self.exprs[j].uid()->0
    }

    /// If the expression `e` has a unique identifier, it is at least
    /// `from`, below `next`, and above that of every expression of the
    /// arena.
    pub open spec fn takes_uid(self, e: ExprView, from: u32, next: u32) -> bool {
        e.uid() matches Some(uid) ==> from <= uid < next && forall|i: int|
            0 <= i < self.exprs.len() && (#[trigger] self.exprs[i]).uid() is Some
                ==> self.exprs[i].uid()->0 < uid
    }

    /// The range of the expression `id`. Every expression of well-formed
    /// bodies has one.
    pub open spec fn range_of(self, id: ExprId) -> Option<TextRange> {
        if self.expr_ranges.contains_key(id.0) {
            Some(self.expr_ranges[id.0])
        } else {
            None
        }
    }

    /// The sub-expressions of an expression `e` of these bodies lie in
    /// `outer`.
    pub open spec fn within(self, e: ExprView, outer: TextRange) -> bool {
        forall|c: ExprId|
            #[trigger] self.reads(e, c) && self.expr_ranges.contains_key(c.0) ==> outer.encloses(
                self.expr_ranges[c.0],
            )
    }

    /// The expressions that the statement `s` reads lie in `outer`.
    pub open spec fn stmt_within(self, s: StmtId, outer: TextRange) -> bool {
        forall|c: ExprId|
            #[trigger] self.stmt_reads(s, c) && self.expr_ranges.contains_key(c.0)
                ==> outer.encloses(self.expr_ranges[c.0])
    }

    /// The range of every expression encloses the range of each of its
    /// sub-expressions.
    pub open spec fn ranges_nested(self) -> bool {
        forall|i: int, c: ExprId|
            #[trigger] self.is_child(i, c) ==> self.expr_ranges.contains_key(i as u32) && (
            self.expr_ranges.contains_key(c.0) ==> self.expr_ranges[i as u32].encloses(
                self.expr_ranges[c.0],
            ))
    }
}

impl Bodies {
    /// Bodies without any node, global or import.
    pub(crate) fn new() -> (bodies: Bodies)
        ensures
            bodies@ == BodiesView::empty(),
            bodies@.wf(),
    {
        let bodies = Bodies {
            local_defs: new_local_defs(),
            assigns: new_assigns(),
            stmts: new_stmts(),
            exprs: new_exprs(),
            expr_ranges: new_ranges(),
            global_tys: new_id_map(),
            global_bodies: new_id_map(),
            lambdas: new_lambdas(),
            comptimes: new_comptimes(),
            imports: new_id_set(),
        };
        proof {
            let v = bodies@;
            let e = BodiesView::empty();
            assert(v.local_defs =~= e.local_defs);
            assert(v.assigns =~= e.assigns);
            assert(v.stmts =~= e.stmts);
            assert(v.exprs =~= e.exprs);
            assert(v.expr_ranges =~= e.expr_ranges);
            assert(v.global_tys =~= e.global_tys);
            assert(v.global_bodies =~= e.global_bodies);
            assert(v.lambdas =~= e.lambdas);
            assert(v.comptimes =~= e.comptimes);
            assert(v.imports =~= e.imports);
        }
        bodies
    }

    /// Appends `expr` to the expressions, covering `range`.
    pub(crate) fn alloc_expr(&mut self, expr: Expr, range: TextRange) -> (id: ExprId)
        requires
            old(self)@.exprs.len() < u32::MAX,
        ensures
            final(self)@ == old(self)@.with_expr(expr@, range),
            id.0 == old(self)@.exprs.len(),
    {
        let id: ExprId = alloc_expr(&mut self.exprs, expr);
        insert_range(&mut self.expr_ranges, id, range);
        proof {
            assert(final(self)@.exprs =~= old(self)@.exprs.push(expr@));
        }
        id
    }

    pub(crate) fn alloc_stmt(&mut self, stmt: Stmt) -> (id: StmtId)
        requires
            old(self)@.stmts.len() < u32::MAX,
        ensures
            final(self)@ == old(self)@.with_stmt(stmt),
            id.0 == old(self)@.stmts.len(),
    {
        alloc_stmt(&mut self.stmts, stmt)
    }

    pub(crate) fn alloc_local_def(&mut self, def: LocalDef) -> (id: LocalDefId)
        requires
            old(self)@.local_defs.len() < u32::MAX,
        ensures
            final(self)@ == old(self)@.with_local_def(def),
            id.0 == old(self)@.local_defs.len(),
    {
        alloc_local_def(&mut self.local_defs, def)
    }

    pub(crate) fn alloc_assign(&mut self, assign: Assign) -> (id: AssignId)
        requires
            old(self)@.assigns.len() < u32::MAX,
        ensures
            final(self)@ == old(self)@.with_assign(assign),
            id.0 == old(self)@.assigns.len(),
    {
        alloc_assign(&mut self.assigns, assign)
    }

    pub(crate) fn alloc_lambda(&mut self, lambda: Lambda) -> (id: LambdaId)
        requires
            old(self)@.lambdas.len() < u32::MAX,
        ensures
            final(self)@ == old(self)@.with_lambda(lambda@),
            id.0 == old(self)@.lambdas.len(),
    {
        let id: LambdaId = alloc_lambda(&mut self.lambdas, lambda);
        proof {
            assert(final(self)@.lambdas =~= old(self)@.lambdas.push(lambda@));
        }
        id
    }

    pub(crate) fn alloc_comptime(&mut self, comptime: Comptime) -> (id: ComptimeId)
        requires
            old(self)@.comptimes.len() < u32::MAX,
        ensures
            final(self)@ == old(self)@.with_comptime(comptime),
            id.0 == old(self)@.comptimes.len(),
    {
        alloc_comptime(&mut self.comptimes, comptime)
    }

    pub(crate) fn set_global_ty(&mut self, name: Name, ty: ExprId)
        ensures
            final(self)@ == old(self)@.with_global_ty(name, ty),
    {
        id_map_insert(&mut self.global_tys, name.0.0, ty.0);
    }

    pub(crate) fn set_global_body(&mut self, name: Name, body: ExprId)
        ensures
            final(self)@ == old(self)@.with_global_body(name, body),
    {
        id_map_insert(&mut self.global_bodies, name.0.0, body.0);
    }

    pub(crate) fn add_import(&mut self, file: FileName)
        ensures
            final(self)@ == old(self)@.with_import(file),
    {
        id_set_insert(&mut self.imports, file.0.0);
    }

    /// Whether the file defines a global called `name`.
    pub fn has_global(&self, name: Name) -> (found: bool)
        ensures
            found == self@.global_bodies.contains_key(name.0.0),
    {
        id_map_get(&self.global_bodies, name.0.0).is_some()
    }

    /// The expression that the global called `name` is bound to.
    pub fn global_body(&self, name: Name) -> (body: ExprId)
        requires
            self@.global_bodies.contains_key(name.0.0),
        ensures
            body.0 == self@.global_bodies[name.0.0],
    {
        match id_map_get(&self.global_bodies, name.0.0) {
            Some(raw) => ExprId(raw),
            None => ExprId(0),
        }
    }

    /// The expression of the type annotation of the global called `name`,
    /// if it has one.
    pub fn global_ty(&self, name: Name) -> (ty: Option<ExprId>)
        ensures
            ty == (if self@.global_tys.contains_key(name.0.0) {
                Some(ExprId(self@.global_tys[name.0.0]))
            } else {
                None
            }),
    {
        match id_map_get(&self.global_tys, name.0.0) {
            Some(raw) => Some(ExprId(raw)),
            None => None,
        }
    }

    /// The range of text that `expr` was lowered from; for an expression
    /// that stands for a piece that the source lacks, the range of what
    /// the piece is missing from.
    pub fn range_for_expr(&self, expr: ExprId) -> (range: TextRange)
        requires
            self@.wf(),
            (expr.0 as int) < self@.exprs.len(),
        ensures
            range == self@.expr_ranges[expr.0],
    {
        match range_at(&self.expr_ranges, expr) {
            Some(range) => range,
            None => TextRange { start: 0, end: 0 },
        }
    }

    /// The compile-time blocks of the file, in the order of their indices.
    pub fn comptimes(&self) -> (ids: Vec<ComptimeId>)
        requires
            self@.wf(),
        ensures
            ids@.len() == self@.comptimes.len(),
            forall|i: int| 0 <= i < ids@.len() ==> (#[trigger] ids@[i]).0 == i,
    {
        let n: usize = count_comptimes(&self.comptimes);
        let mut ids: Vec<ComptimeId> = Vec::new();
        let mut i: usize = 0;
        while i < n
            invariant
                n == self@.comptimes.len(),
                n <= u32::MAX,
                i <= n,
                ids@.len() == i,
                forall|j: int| 0 <= j < ids@.len() ==> (#[trigger] ids@[j]).0 == j,
            decreases n - i,
        {
            ids.push(ComptimeId(i as u32));
            i = i + 1;
        }
        ids
    }

    /// Whether the file imports the file called `file`.
    pub fn has_import(&self, file: FileName) -> (found: bool)
        ensures
            found == self@.imports.contains(file.0.0),
    {
        id_set_contains(&self.imports, file.0.0)
    }

    /// The files that the file imports: each one once, in no fixed order.
    pub fn imports(&self) -> (files: Vec<FileName>)
        ensures
            forall|i: int|
                0 <= i < files@.len() ==> self@.imports.contains((#[trigger] files@[i]).0.0),
            forall|i: int, j: int| 0 <= i < j < files@.len() ==> files@[i] != files@[j],
            forall|key: u32|
                self@.imports.contains(key) ==> files@.contains(FileName(Key(key))),
    {
        let keys: Vec<u32> = id_set_keys(&self.imports);
        let mut files: Vec<FileName> = Vec::new();
        let mut i: usize = 0;
        while i < keys.len()
            invariant
                i <= keys@.len(),
                files@.len() == i,
                forall|j: int| 0 <= j < i ==> (#[trigger] files@[j]).0.0 == keys@[j],
            decreases keys.len() - i,
        {
            files.push(FileName(Key(keys[i])));
            i = i + 1;
        }
        proof {
            assert forall|key: u32| self@.imports.contains(key) implies files@.contains(
                FileName(Key(key)),
            ) by {
                assert(keys@.contains(key));
                let j = choose|j: int| 0 <= j < keys@.len() && keys@[j] == key;
                assert(files@[j] == FileName(Key(key)));
            }
        }
        files
    }

    /// The expression at `id`.
    pub fn expr(&self, id: ExprId) -> (expr: &Expr)
        requires
            (id.0 as int) < self@.exprs.len(),
        ensures
            expr@ == self@.exprs[id.0 as int],
    {
        expr_at(&self.exprs, id)
    }

    /// The statement at `id`.
    pub fn stmt(&self, id: StmtId) -> (stmt: &Stmt)
        requires
            (id.0 as int) < self@.stmts.len(),
        ensures
            *stmt == self@.stmts[id.0 as int],
    {
        stmt_at(&self.stmts, id)
    }

    /// The local definition at `id`.
    pub fn local_def(&self, id: LocalDefId) -> (def: &LocalDef)
        requires
            (id.0 as int) < self@.local_defs.len(),
        ensures
            *def == self@.local_defs[id.0 as int],
    {
        local_def_at(&self.local_defs, id)
    }

    /// The assignment at `id`.
    pub fn assign(&self, id: AssignId) -> (assign: &Assign)
        requires
            (id.0 as int) < self@.assigns.len(),
        ensures
            *assign == self@.assigns[id.0 as int],
    {
        assign_at(&self.assigns, id)
    }

    /// The lambda at `id`.
    pub fn lambda(&self, id: LambdaId) -> (lambda: &Lambda)
        requires
            (id.0 as int) < self@.lambdas.len(),
        ensures
            lambda@ == self@.lambdas[id.0 as int],
    {
        lambda_at(&self.lambdas, id)
    }

    /// The compile-time block at `id`.
    pub fn comptime(&self, id: ComptimeId) -> (comptime: &Comptime)
        requires
            (id.0 as int) < self@.comptimes.len(),
        ensures
            *comptime == self@.comptimes[id.0 as int],
    {
        comptime_at(&self.comptimes, id)
    }
}

/// What a statement reads does not change when the bodies are extended.
pub proof fn lemma_stmt_stable(old: BodiesView, new: BodiesView, s: StmtId)
    requires
        old.extended_by(new),
        old.stmt_in_arena(s),
    ensures
        new.stmt_in_arena(s),
        forall|c: ExprId| new.stmt_reads(s, c) == old.stmt_reads(s, c),
{
}

/// The sub-expressions of an expression do not change when the bodies
/// are extended.
pub proof fn lemma_reads_stable(old: BodiesView, new: BodiesView, e: ExprView)
    requires
        old.extended_by(new),
        old.names_in_arena(e),
    ensures
        new.names_in_arena(e),
        forall|c: ExprId| new.reads(e, c) == old.reads(e, c),
{
    match e {
        ExprView::Block { stmts, tail_expr } => {
            assert forall|k: int| 0 <= k < stmts.len() implies new.stmt_in_arena(
                #[trigger] stmts[k],
            ) && (forall|c: ExprId| new.stmt_reads(stmts[k], c) == old.stmt_reads(stmts[k], c)) by {
                lemma_stmt_stable(old, new, stmts[k]);
            }
            assert forall|c: ExprId| new.reads(e, c) == old.reads(e, c) by {
                if old.reads(e, c) && tail_expr != Some(c) {
                    let k = choose|k: int|
                        0 <= k < stmts.len() && old.stmt_reads(#[trigger] stmts[k], c);
                    assert(new.stmt_reads(stmts[k], c));
                }
                if new.reads(e, c) && tail_expr != Some(c) {
                    let k = choose|k: int|
                        0 <= k < stmts.len() && new.stmt_reads(#[trigger] stmts[k], c);
                    assert(old.stmt_reads(stmts[k], c));
                }
            }
        },
        _ => {},
    }
}

/// A statement that a block could name can still be named when the
/// bodies are extended.
pub proof fn lemma_stmt_admitted_stable(old: BodiesView, new: BodiesView, s: StmtId)
    requires
        old.extended_by(new),
        old.stmt_admitted(s),
    ensures
        new.stmt_admitted(s),
{
    lemma_stmt_stable(old, new, s);
    assert forall|c: ExprId| #[trigger] new.stmt_reads(s, c) implies (c.0 as int)
        < new.exprs.len() by {
        assert(old.stmt_reads(s, c));
    }
}

/// Extension is reflexive and transitive.
pub proof fn lemma_extended_refl(bodies: BodiesView)
    ensures
        bodies.extended_by(bodies),
{
}

pub proof fn lemma_extended_trans(a: BodiesView, b: BodiesView, c: BodiesView)
    requires
        a.extended_by(b),
        b.extended_by(c),
        a.wf(),
    ensures
        a.extended_by(c),
{
    assert forall|key: u32| (key as int) < a.exprs.len() implies (
    #[trigger] c.expr_ranges.contains_key(key)) == a.expr_ranges.contains_key(key) by {
        assert(b.expr_ranges.contains_key(key) == a.expr_ranges.contains_key(key));
    }
    assert forall|key: u32| #[trigger] a.expr_ranges.contains_key(key) implies c.expr_ranges[key]
        == a.expr_ranges[key] by {
        assert(b.expr_ranges.contains_key(key));
    }
    assert forall|key: u32| #[trigger] a.global_bodies.contains_key(key) implies
        c.global_bodies.contains_key(key) && c.global_bodies[key] == a.global_bodies[key] by {
        assert(b.global_bodies.contains_key(key));
    }
    assert forall|key: u32| #[trigger] a.imports.contains(key) implies c.imports.contains(
        key,
    ) by {
        assert(b.imports.contains(key));
    }
}

/// Well-formed bodies stay well formed when nodes other than
/// expressions are appended.
pub proof fn lemma_side_arenas_keep_wf(old: BodiesView, new: BodiesView)
    requires
        old.wf(),
        old.extended_by(new),
        new.exprs == old.exprs,
        new.expr_ranges == old.expr_ranges,
        new.global_bodies == old.global_bodies,
        new.global_tys == old.global_tys,
        new.comptimes.len() <= u32::MAX,
    ensures
        new.wf(),
{
    assert forall|i: int| 0 <= i < new.exprs.len() implies #[trigger] new.refs_in_arena(i) by {
        assert(old.refs_in_arena(i));
        lemma_reads_stable(old, new, old.exprs[i]);
    }
    assert forall|i: int, c: ExprId| #[trigger] new.is_child(i, c) implies (c.0 as int) < i by {
        assert(old.refs_in_arena(i));
        lemma_reads_stable(old, new, old.exprs[i]);
        assert(old.is_child(i, c));
    }
}

/// Well-formed bodies stay well formed when an expression that they
/// admit is appended.
pub proof fn lemma_expr_keeps_wf(old: BodiesView, e: ExprView, range: TextRange)
    requires
        old.wf(),
        old.admits(e),
        old.exprs.len() < u32::MAX,
    ensures
        old.with_expr(e, range).wf(),
        old.extended_by(old.with_expr(e, range)),
{
    let new = old.with_expr(e, range);
    assert(old.extended_by(new));
    assert forall|i: int| 0 <= i < new.exprs.len() implies #[trigger] new.refs_in_arena(i) by {
        if i < old.exprs.len() {
            assert(old.refs_in_arena(i));
            lemma_reads_stable(old, new, old.exprs[i]);
        } else {
            lemma_reads_stable(old, new, e);
        }
    }
    assert forall|i: int, c: ExprId| #[trigger] new.is_child(i, c) implies (c.0 as int) < i by {
        if i < old.exprs.len() {
            assert(old.refs_in_arena(i));
            lemma_reads_stable(old, new, old.exprs[i]);
            assert(old.is_child(i, c));
        } else {
            lemma_reads_stable(old, new, e);
            assert(old.reads(e, c));
        }
    }
}

/// Well-formed bodies stay well formed when a global is bound to an
/// expression of the arena, when a global gets the expression of its
/// type, and when an import is added.
pub proof fn lemma_tables_keep_wf(old: BodiesView, name: Name, id: ExprId, file: FileName)
    requires
        old.wf(),
        (id.0 as int) < old.exprs.len(),
    ensures
        old.with_global_ty(name, id).wf(),
        old.with_global_body(name, id).wf(),
        old.with_import(file).wf(),
        old.extended_by(old.with_global_ty(name, id)),
        old.extended_by(old.with_import(file)),
        !old.global_bodies.contains_key(name.0.0) ==> old.extended_by(
            old.with_global_body(name, id),
        ),
{
    let a = old.with_global_ty(name, id);
    let b = old.with_global_body(name, id);
    let c = old.with_import(file);
    assert forall|i: int, x: ExprId| #[trigger] a.is_child(i, x) implies (x.0 as int) < i by {
        assert(old.is_child(i, x));
    }
    assert forall|i: int, x: ExprId| #[trigger] b.is_child(i, x) implies (x.0 as int) < i by {
        assert(old.is_child(i, x));
    }
    assert forall|i: int, x: ExprId| #[trigger] c.is_child(i, x) implies (x.0 as int) < i by {
        assert(old.is_child(i, x));
    }
    assert forall|i: int| 0 <= i < old.exprs.len() implies #[trigger] a.refs_in_arena(i) by {
        assert(old.refs_in_arena(i));
    }
    assert forall|i: int| 0 <= i < old.exprs.len() implies #[trigger] b.refs_in_arena(i) by {
        assert(old.refs_in_arena(i));
    }
    assert forall|i: int| 0 <= i < old.exprs.len() implies #[trigger] c.refs_in_arena(i) by {
        assert(old.refs_in_arena(i));
    }
}

/// The ranges stay nested when nodes other than expressions are
/// appended, and when the tables change.
pub proof fn lemma_side_arenas_keep_nested(old: BodiesView, new: BodiesView)
    requires
        old.wf(),
        old.ranges_nested(),
        old.extended_by(new),
        new.exprs == old.exprs,
        new.expr_ranges == old.expr_ranges,
    ensures
        new.ranges_nested(),
{
    assert forall|i: int, c: ExprId| #[trigger] new.is_child(i, c) implies
        new.expr_ranges.contains_key(i as u32) && (new.expr_ranges.contains_key(c.0)
        ==> new.expr_ranges[i as u32].encloses(new.expr_ranges[c.0])) by {
        assert(old.refs_in_arena(i));
        lemma_reads_stable(old, new, old.exprs[i]);
        assert(old.is_child(i, c));
    }
}

/// The ranges stay nested when an expression is appended whose
/// sub-expressions lie in its range.
pub proof fn lemma_expr_keeps_nested(old: BodiesView, e: ExprView, range: TextRange)
    requires
        old.wf(),
        old.ranges_nested(),
        old.admits(e),
        old.exprs.len() < u32::MAX,
        old.within(e, range),
    ensures
        old.with_expr(e, range).ranges_nested(),
{
    let new = old.with_expr(e, range);
    lemma_expr_keeps_wf(old, e, range);
    assert forall|i: int, c: ExprId| #[trigger] new.is_child(i, c) implies
        new.expr_ranges.contains_key(i as u32) && (new.expr_ranges.contains_key(c.0)
        ==> new.expr_ranges[i as u32].encloses(new.expr_ranges[c.0])) by {
        assert((c.0 as int) < i);
        if i < old.exprs.len() {
            assert(old.refs_in_arena(i));
            lemma_reads_stable(old, new, old.exprs[i]);
            assert(old.is_child(i, c));
        } else {
            lemma_reads_stable(old, new, e);
            assert(old.reads(e, c));
        }
    }
}

/// What a statement reads still lies in a range when the bodies are
/// extended.
pub proof fn lemma_stmt_within_stable(old: BodiesView, new: BodiesView, s: StmtId, outer: TextRange)
    requires
        old.wf(),
        old.extended_by(new),
        old.stmt_admitted(s),
        old.stmt_within(s, outer),
    ensures
        new.stmt_within(s, outer),
{
    lemma_stmt_stable(old, new, s);
    assert forall|c: ExprId|
        #[trigger] new.stmt_reads(s, c) && new.expr_ranges.contains_key(c.0)
        implies outer.encloses(new.expr_ranges[c.0]) by {
        assert(old.stmt_reads(s, c));
    }
}

/// The unique identifiers stay in order when an expression is appended
/// whose identifier, if it has one, is above all others.
pub proof fn lemma_expr_keeps_uids(
    old: BodiesView,
    e: ExprView,
    range: TextRange,
    from: u32,
    next: u32,
)
    requires
        old.uids_in_order(from, next),
        old.takes_uid(e, from, next),
    ensures
        old.with_expr(e, range).uids_in_order(from, next),
{
    let new = old.with_expr(e, range);
    assert forall|i: int|
        0 <= i < new.exprs.len() && (#[trigger] new.exprs[i]).uid() is Some implies from
        <= new.exprs[i].uid()->0 < next by {
        if i < old.exprs.len() {
            assert(new.exprs[i] == old.exprs[i]);
        }
    }
    assert forall|i: int, j: int|
        0 <= i < j < new.exprs.len() && (#[trigger] new.exprs[i]).uid() is Some && (
        #[trigger] new.exprs[j]).uid() is Some implies new.exprs[i].uid()->0
        < new.exprs[j].uid()->0 by {
        assert(new.exprs[i] == old.exprs[i]);
        if j < old.exprs.len() {
            assert(new.exprs[j] == old.exprs[j]);
        }
    }
}

/// Names that are known stay known when the interner grows.
pub proof fn lemma_names_stay_known(bodies: BodiesView, count: nat, more: nat)
    requires
        bodies.names_known(count),
        count <= more,
    ensures
        bodies.names_known(more),
{
    assert forall|i: int| 0 <= i < bodies.exprs.len() implies (
    #[trigger] bodies.exprs[i]).names_below(more) by {
        assert(bodies.exprs[i].names_below(count));
    }
    assert forall|i: int| 0 <= i < bodies.lambdas.len() implies (
    #[trigger] bodies.lambdas[i]).names_below(more) by {
        assert(bodies.lambdas[i].names_below(count));
    }
}

} // verus!
