//! The index of one file: the names that it defines at its root.

use crate::body::prefix_of;
use crate::diagnostics::{IndexingDiagnostic, IndexingDiagnosticKind};
use crate::interner::{key_in, table_with, Interner, Key};
use crate::names::Name;
use crate::store::{id_set_contains, id_set_insert, new_id_set, IdSet};
use crate::syntax::{Define, ExprKind, Root};
use vstd::prelude::*;

verus! {

/// The names that a file defines at its root.
#[derive(Debug)]
pub struct Index {
    names: IdSet,
}

impl View for Index {
    /// The keys of the names that the file defines.
    type V = Set<u32>;

    closed spec fn view(&self) -> Set<u32> {
        self.names@
    }
}

impl Index {
    /// The index of a file that defines nothing.
    pub fn new() -> (index: Index)
        ensures
            index@ == Set::<u32>::empty(),
    {
        let index = Index { names: new_id_set() };
        assert(index@ =~= Set::<u32>::empty());
        index
    }

    /// Records that the file defines `name`.
    pub fn define(&mut self, name: Name)
        ensures
            final(self)@ == old(self)@.insert(name.0.0),
    {
        id_set_insert(&mut self.names, name.0.0);
    }

    /// Whether the file defines `name` at its root.
    pub fn is_defined(&self, name: Name) -> (found: bool)
        ensures
            found == self@.contains(name.0.0),
    {
        id_set_contains(&self.names, name.0.0)
    }
}

/// What indexing has found so far: the names defined, the interner's
/// table, and the diagnostics.
pub struct IndexState {
    pub names: Set<u32>,
    pub interner: Seq<Seq<char>>,
    pub diagnostics: Seq<IndexingDiagnostic>,
}

impl IndexState {
    pub open spec fn diagnosed(self, when: bool, diagnostic: IndexingDiagnostic) -> IndexState {
        if when {
            IndexState { diagnostics: self.diagnostics.push(diagnostic), ..self }
        } else {
            self
        }
    }
}

/// Whether the definition binds a lambda.
pub open spec fn binds_lambda(def: Define) -> bool {
    def.value matches Some(value) && value.kind is Lambda
}

/// The state after the definition `def` at the root of a file is indexed.
///
/// A definition without a name is passed over. One that is written as a
/// variable is reported. One whose name is defined already is reported
/// and dropped. A lambda with a type annotation is reported, and so is
/// anything else without one. Nothing stops indexing.
pub open spec fn indexed_def(st: IndexState, def: Define) -> IndexState {
    match def.name {
        None => st,
        Some(ident) => {
            let key = Key(key_in(st.interner, ident.text@) as u32);
            let st = IndexState { interner: table_with(st.interner, ident.text@), ..st };
            let st = st.diagnosed(
                def.mutable,
                IndexingDiagnostic {
                    kind: IndexingDiagnosticKind::NonBindingAtRoot,
                    range: def.range,
                },
            );
            if st.names.contains(key.0) {
                st.diagnosed(
                    true,
                    IndexingDiagnostic {
                        kind: IndexingDiagnosticKind::AlreadyDefined { name: key },
                        range: ident.range,
                    },
                )
            } else {
                let st = if binds_lambda(def) {
                    st.diagnosed(
                        def.ty is Some,
                        IndexingDiagnostic {
                            kind: IndexingDiagnosticKind::FunctionTy,
                            range: def.range,
                        },
                    )
                } else {
                    st.diagnosed(
                        def.ty is None,
                        IndexingDiagnostic {
                            kind: IndexingDiagnosticKind::MissingTy { name: key },
                            range: ident.range,
                        },
                    )
                };
                IndexState { names: st.names.insert(key.0), ..st }
            }
        },
    }
}

/// The state after the first `n` definitions are indexed, in order.
pub open spec fn indexed_defs(st: IndexState, defs: Seq<Define>, n: nat) -> IndexState
    decreases n,
{
    if n == 0 || n > defs.len() {
        st
    } else {
        indexed_def(indexed_defs(st, defs, (n - 1) as nat), defs[n - 1])
    }
}

/// Indexes the file with the syntax tree `root`: finds the names that it
/// defines at its root, and reports what is wrong with the definitions.
pub fn index(root: &Root, interner: &mut Interner) -> (result: (Index, Vec<IndexingDiagnostic>))
    requires
        old(interner).wf(),
        old(interner)@.len() + root.defs@.len() <= u32::MAX,
    ensures
        ({
            let end = indexed_defs(
                IndexState {
                    names: Set::empty(),
                    interner: old(interner)@,
                    diagnostics: Seq::empty(),
                },
                root.defs@,
                root.defs@.len(),
            );
            &&& result.0@ == end.names
            &&& result.1@ == end.diagnostics
            &&& final(interner)@ == end.interner
        }),
        final(interner).wf(),
        prefix_of(old(interner)@, final(interner)@),
{
    let mut index = Index::new();
    let mut diagnostics: Vec<IndexingDiagnostic> = Vec::new();
    let ghost start = IndexState {
        names: Set::empty(),
        interner: interner@,
        diagnostics: Seq::empty(),
    };
    let mut i: usize = 0;
    while i < root.defs.len()
        invariant
            i <= root.defs@.len(),
            interner.wf(),
            old(interner)@.len() + root.defs@.len() <= u32::MAX,
            interner@.len() <= old(interner)@.len() + i,
            prefix_of(old(interner)@, interner@),
            start.interner == old(interner)@,
            (IndexState { names: index@, interner: interner@, diagnostics: diagnostics@ })
                == indexed_defs(start, root.defs@, i as nat),
        decreases root.defs.len() - i,
    {
        let def: &Define = &root.defs[i];
        match &def.name {
            None => {},
            Some(ident) => {
                let key: Key = interner.intern(ident.text.as_str());
                let name = Name(key);
                if def.mutable {
                    diagnostics.push(
                        IndexingDiagnostic {
                            kind: IndexingDiagnosticKind::NonBindingAtRoot,
                            range: def.range,
                        },
                    );
                }
                if index.is_defined(name) {
                    diagnostics.push(
                        IndexingDiagnostic {
                            kind: IndexingDiagnosticKind::AlreadyDefined { name: key },
                            range: ident.range,
                        },
                    );
                } else {
                    let is_lambda: bool = match &def.value {
                        Some(value) => match &value.kind {
                            ExprKind::Lambda(_) => true,
                            _ => false,
                        },
                        None => false,
                    };
                    if is_lambda {
                        if def.ty.is_some() {
                            diagnostics.push(
                                IndexingDiagnostic {
                                    kind: IndexingDiagnosticKind::FunctionTy,
                                    range: def.range,
                                },
                            );
                        }
                    } else if def.ty.is_none() {
                        diagnostics.push(
                            IndexingDiagnostic {
                                kind: IndexingDiagnosticKind::MissingTy { name: key },
                                range: ident.range,
                            },
                        );
                    }
                    index.define(name);
                }
            },
        }
        i = i + 1;
    }
    (index, diagnostics)
}

} // verus!
