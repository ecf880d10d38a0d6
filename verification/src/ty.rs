//! Resolved types and the project-wide arena of their parts.

use crate::hir::PrimitiveTy;
use crate::interner::{name_text, Interner};
use crate::names::{FileName, Name};
use crate::show::{decimal_text, primitive_text, push_decimal};
use la_arena::{Arena, Idx, RawIdx};
use vstd::prelude::*;
use vstd::set_lib::{lemma_int_range, lemma_len_subset, set_int_range};
use vstd::string::StringExecFns;

verus! {

/// The index of a type in the project-wide arena of types.
#[derive(Clone, Copy, Debug, PartialEq, Eq, Structural, Hash)]
pub struct TyId(pub u32);

/// The consecutive slots `start..end` of the arena of types.
#[derive(Clone, Copy, Debug, PartialEq, Eq, Structural, Hash)]
pub struct TyRange {
    pub start: u32,
    pub end: u32,
}

/// A fully elaborated type. Its parts live in the arena of types and are
/// named by index, so that a value is small and can be copied.
///
/// An integer width of 0 marks a weak integer: one of a literal that is
/// not bound to a width yet.
#[derive(Clone, Copy, Debug, PartialEq, Eq, Structural)]
pub enum ResolvedTy {
    Unknown,
    Void,
    Any,
    Bool,
    IInt(u32),
    UInt(u32),
    Float(u32),
    String,
    Char,
    Type,
    Pointer { sub_ty: TyId },
    Array { size: u64, sub_ty: TyId },
    Slice { sub_ty: TyId },
    /// A struct with its fields in order: the slots of `fields` hold one
    /// `Field` each.
    Struct { uid: u32, fields: TyRange },
    /// A named field of a struct.
    Field { name: Name, ty: TyId },
    Distinct { uid: u32, ty: TyId },
    /// A function; the slots of `params` hold its parameter types in order.
    Function { params: TyRange, return_ty: TyId, is_extern: bool },
    File(FileName),
    MetaTy,
}

/// The types that an arena holds, in the order of their indices.
pub uninterp spec fn arena_types(arena: Arena<ResolvedTy>) -> Seq<ResolvedTy>;

/// Indexing of `la_arena::Arena`: the value stored at the raw index `id.0`.
/// The arena panics on an index past its end, so that is excluded.
#[verifier::external_body]
pub(crate) fn ty_at(arena: &Arena<ResolvedTy>, id: TyId) -> (ty: ResolvedTy)
    requires
        (id.0 as int) < arena_types(*arena).len(),
    ensures
        ty == arena_types(*arena)[id.0 as int],
{
    arena[Idx::from_raw(RawIdx::from_u32(id.0))]
}

/// `la_arena::Arena::len`: the number of values stored.
#[verifier::external_body]
pub(crate) fn ty_count(arena: &Arena<ResolvedTy>) -> (n: usize)
    ensures
        n == arena_types(*arena).len(),
{
    arena.len()
}

impl ResolvedTy {
    /// The part that a pointer, array, slice or distinct type wraps.
    pub open spec fn inner(self) -> Option<TyId> {
        match self {
            ResolvedTy::Pointer { sub_ty } => Some(sub_ty),
            ResolvedTy::Array { sub_ty, .. } => Some(sub_ty),
            ResolvedTy::Slice { sub_ty } => Some(sub_ty),
            ResolvedTy::Distinct { ty, .. } => Some(ty),
            _ => None,
        }
    }

    pub open spec fn is_int(self) -> bool {
        self is IInt || self is UInt
    }
}

/// The type `ty`, whose parts are in `types`, as a message writes it,
/// by a descent of at most `depth` steps from a type to its part. A part
/// that is not in the arena, or that lies deeper, is written `<unknown>`.
pub open spec fn ty_text_within(
    types: Seq<ResolvedTy>,
    names: Seq<Seq<char>>,
    ty: ResolvedTy,
    depth: nat,
) -> Seq<char>
    decreases depth, 1nat,
{
    match ty {
        ResolvedTy::Unknown => "<unknown>"@,
        ResolvedTy::Void => "void"@,
        ResolvedTy::Any => "any"@,
        ResolvedTy::Bool => "bool"@,
        ResolvedTy::IInt(width) => primitive_text(PrimitiveTy::IInt(width)),
        ResolvedTy::UInt(width) => primitive_text(PrimitiveTy::UInt(width)),
        ResolvedTy::Float(width) => primitive_text(PrimitiveTy::Float(width)),
        ResolvedTy::String => "string"@,
        ResolvedTy::Char => "char"@,
        ResolvedTy::Type => "type"@,
        ResolvedTy::Pointer { sub_ty } => "^"@ + part_text(types, names, sub_ty, depth),
        ResolvedTy::Array { size, sub_ty } => "["@ + decimal_text(size as nat) + "]"@ + part_text(
            types,
            names,
            sub_ty,
            depth,
        ),
        ResolvedTy::Slice { sub_ty } => "[]"@ + part_text(types, names, sub_ty, depth),
        ResolvedTy::Struct { uid, .. } => "struct'"@ + decimal_text(uid as nat),
        ResolvedTy::Field { name, .. } => name_text(names, name.0),
        ResolvedTy::Distinct { uid, ty: inner } => "distinct'"@ + decimal_text(uid as nat) + " "@
            + part_text(types, names, inner, depth),
        ResolvedTy::Function { .. } => "function"@,
        ResolvedTy::File(file) => "file "@ + name_text(names, file.0),
        ResolvedTy::MetaTy => "metatype"@,
    }
}

/// The type in the slot `part`, as a message writes it, where `depth`
/// steps of descent are left.
pub open spec fn part_text(
    types: Seq<ResolvedTy>,
    names: Seq<Seq<char>>,
    part: TyId,
    depth: nat,
) -> Seq<char>
    decreases depth, 0nat,
{
    if depth > 0 && (part.0 as int) < types.len() {
        ty_text_within(types, names, types[part.0 as int], (depth - 1) as nat)
    } else {
        "<unknown>"@
    }
}

/// The type `ty`, whose parts are in `types`, as a message writes it.
///
/// The descent through the parts is as deep as the arena has slots: one
/// that goes deeper has come by one slot twice, and does not end. A part
/// at which the descent is given up is written `<unknown>`, and so is a
/// part that is not in the arena.
pub open spec fn ty_text(types: Seq<ResolvedTy>, names: Seq<Seq<char>>, ty: ResolvedTy) -> Seq<
    char,
> {
    ty_text_within(types, names, ty, types.len())
}

/// Whether the descent from `ty` through its parts stays in the arena
/// and ends, after at most `depth` steps, at a type that wraps no part.
pub open spec fn ends_within(types: Seq<ResolvedTy>, ty: ResolvedTy, depth: nat) -> bool
    decreases depth,
{
    match ty.inner() {
        None => true,
        Some(part) => depth > 0 && (part.0 as int) < types.len() && ends_within(
            types,
            types[part.0 as int],
            (depth - 1) as nat,
        ),
    }
}

/// Where the descent from a type ends within `depth` steps, a deeper
/// descent ends too and writes the same text.
pub proof fn lemma_text_stays(
    types: Seq<ResolvedTy>,
    names: Seq<Seq<char>>,
    ty: ResolvedTy,
    depth: nat,
    deeper: nat,
)
    requires
        ends_within(types, ty, depth),
        depth <= deeper,
    ensures
        ends_within(types, ty, deeper),
        ty_text_within(types, names, ty, deeper) == ty_text_within(types, names, ty, depth),
    decreases depth,
{
    if let Some(part) = ty.inner() {
        lemma_text_stays(
            types,
            names,
            types[part.0 as int],
            (depth - 1) as nat,
            (deeper - 1) as nat,
        );
        assert(part_text(types, names, part, deeper) == part_text(types, names, part, depth));
    }
}

/// The least depth within which a descent ends that ends within `depth`.
proof fn lemma_least_depth(types: Seq<ResolvedTy>, ty: ResolvedTy, depth: nat) -> (least: nat)
    requires
        ends_within(types, ty, depth),
    ensures
        least <= depth,
        ends_within(types, ty, least),
        least > 0 ==> !ends_within(types, ty, (least - 1) as nat),
    decreases depth,
{
    if depth > 0 && ends_within(types, ty, (depth - 1) as nat) {
        lemma_least_depth(types, ty, (depth - 1) as nat)
    } else {
        depth
    }
}

/// A descent that ends comes by no slot twice: with the slots in `seen`
/// behind it, which all need a deeper descent than the slot `slot`, and
/// the `depth` steps before it, it is still shorter than the arena.
proof fn lemma_descent_is_short(types: Seq<ResolvedTy>, slot: TyId, depth: nat, seen: Set<int>)
    requires
        (slot.0 as int) < types.len(),
        ends_within(types, types[slot.0 as int], depth),
        depth > 0 ==> !ends_within(types, types[slot.0 as int], (depth - 1) as nat),
        seen.subset_of(set_int_range(0, types.len() as int)),
        forall|other: TyId|
            (other.0 as int) < types.len() && seen.contains(#[trigger] (other.0 as int))
                ==> !ends_within(types, types[other.0 as int], depth),
    ensures
        seen.len() + depth + 1 <= types.len(),
    decreases depth,
{
    let all = set_int_range(0, types.len() as int);
    let more = seen.insert(slot.0 as int);
    lemma_int_range(0, types.len() as int);
    lemma_len_subset(seen, all);
    assert(!seen.contains(slot.0 as int));
    assert(more.subset_of(all));
    if depth == 0 {
        lemma_len_subset(more, all);
    } else {
        let before = (depth - 1) as nat;
        let part = types[slot.0 as int].inner().unwrap();
        assert forall|other: TyId|
            (other.0 as int) < types.len() && more.contains(
                #[trigger] (other.0 as int),
            ) implies !ends_within(types, types[other.0 as int], before) by {
            if other != slot && ends_within(types, types[other.0 as int], before) {
                lemma_text_stays(types, Seq::empty(), types[other.0 as int], before, depth);
            }
        }
        lemma_descent_is_short(types, part, before, more);
    }
}

/// A type whose descent stays in the arena and ends is written in full:
/// as many steps as the arena has slots reach the end, and `ty_text` is
/// the text of every descent that does.
pub proof fn lemma_text_is_whole(
    types: Seq<ResolvedTy>,
    names: Seq<Seq<char>>,
    ty: ResolvedTy,
    depth: nat,
)
    requires
        ends_within(types, ty, depth),
    ensures
        ends_within(types, ty, types.len()),
        ty_text(types, names, ty) == ty_text_within(types, names, ty, depth),
{
    let least = lemma_least_depth(types, ty, depth);
    if least > 0 {
        let part = ty.inner().unwrap();
        let inner = lemma_least_depth(types, types[part.0 as int], (least - 1) as nat);
        if inner < least - 1 {
            lemma_text_stays(types, names, types[part.0 as int], inner, (least - 2) as nat);
        }
        lemma_descent_is_short(types, part, inner, Set::empty());
    }
    lemma_text_stays(types, names, ty, least, types.len());
    lemma_text_stays(types, names, ty, least, depth);
}

impl ResolvedTy {
    /// The type in the slot `part`, with `fuel` steps of descent left.
    fn write_part(
        buf: &mut String,
        resolved_arena: &Arena<ResolvedTy>,
        interner: &Interner,
        part: TyId,
        fuel: usize,
    )
        ensures
            final(buf)@ == old(buf)@ + part_text(
                arena_types(*resolved_arena),
                interner@,
                part,
                fuel as nat,
            ),
        decreases fuel, 0nat,
    {
        if fuel > 0 && (part.0 as usize) < ty_count(resolved_arena) {
            let inner: ResolvedTy = ty_at(resolved_arena, part);
            inner.write(buf, resolved_arena, interner, fuel - 1);
        } else {
            buf.append("<unknown>");
        }
    }

    /// Appends the type as a message writes it.
    fn write(
        &self,
        buf: &mut String,
        resolved_arena: &Arena<ResolvedTy>,
        interner: &Interner,
        fuel: usize,
    )
        ensures
            final(buf)@ == old(buf)@ + ty_text_within(
                arena_types(*resolved_arena),
                interner@,
                *self,
                fuel as nat,
            ),
        decreases fuel, 1nat,
    {
        let ghost types = arena_types(*resolved_arena);
        match *self {
            ResolvedTy::Unknown => {
                buf.append("<unknown>");
            },
            ResolvedTy::Void => {
                buf.append("void");
            },
            ResolvedTy::Any => {
                buf.append("any");
            },
            ResolvedTy::Bool => {
                buf.append("bool");
            },
            ResolvedTy::IInt(width) => {
                let text: String = PrimitiveTy::IInt(width).display();
                buf.append(text.as_str());
            },
            ResolvedTy::UInt(width) => {
                let text: String = PrimitiveTy::UInt(width).display();
                buf.append(text.as_str());
            },
            ResolvedTy::Float(width) => {
                let text: String = PrimitiveTy::Float(width).display();
                buf.append(text.as_str());
            },
            ResolvedTy::String => {
                buf.append("string");
            },
            ResolvedTy::Char => {
                buf.append("char");
            },
            ResolvedTy::Type => {
                buf.append("type");
            },
            ResolvedTy::Pointer { sub_ty } => {
                buf.append("^");
                Self::write_part(buf, resolved_arena, interner, sub_ty, fuel);
            },
            ResolvedTy::Array { size, sub_ty } => {
                buf.append("[");
                push_decimal(buf, size);
                buf.append("]");
                Self::write_part(buf, resolved_arena, interner, sub_ty, fuel);
            },
            ResolvedTy::Slice { sub_ty } => {
                buf.append("[]");
                Self::write_part(buf, resolved_arena, interner, sub_ty, fuel);
            },
            ResolvedTy::Struct { uid, .. } => {
                buf.append("struct'");
                push_decimal(buf, uid as u64);
            },
            ResolvedTy::Field { name, .. } => {
                if (name.0.0 as usize) < interner.len() {
                    buf.append(interner.lookup(name.0));
                } else {
                    buf.append("<unknown>");
                }
            },
            ResolvedTy::Distinct { uid, ty } => {
                buf.append("distinct'");
                push_decimal(buf, uid as u64);
                buf.append(" ");
                Self::write_part(buf, resolved_arena, interner, ty, fuel);
            },
            ResolvedTy::Function { .. } => {
                buf.append("function");
            },
            ResolvedTy::File(file) => {
                buf.append("file ");
                if (file.0.0 as usize) < interner.len() {
                    buf.append(interner.lookup(file.0));
                } else {
                    buf.append("<unknown>");
                }
            },
            ResolvedTy::MetaTy => {
                buf.append("metatype");
            },
        }
        assert(buf@ =~= old(buf)@ + ty_text_within(types, interner@, *self, fuel as nat));
    }

    /// The type as a message writes it.
    pub fn display(&self, resolved_arena: &Arena<ResolvedTy>, interner: &Interner) -> (text: String)
        ensures
            text@ == ty_text(arena_types(*resolved_arena), interner@, *self),
    {
        let mut text = String::new();
        self.write(&mut text, resolved_arena, interner, ty_count(resolved_arena));
        assert(text@ =~= ty_text(arena_types(*resolved_arena), interner@, *self));
        text
    }
}

} // verus!
