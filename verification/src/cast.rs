//! The numeric rules of the type checker: which type two types widen to,
//! which type fits where another is expected, and which casts are allowed.

use crate::ty::{arena_types, ty_at, ty_count, ResolvedTy, TyId};
use la_arena::Arena;
use vstd::prelude::*;
use vstd::set_lib::{lemma_int_range, lemma_len_subset, set_int_range};

verus! {

/// The wider of two widths.
pub open spec fn wider(a: u32, b: u32) -> u32 {
    if a >= b {
        a
    } else {
        b
    }
}

/// The type that can stand for both `first` and `second`, if there is one.
///
/// Equal types widen to themselves. Two weak unsigned integers stay weak
/// and unsigned; a weak unsigned and a weak signed integer become a weak
/// signed one. Integers of one signedness widen to the wider of the two.
/// A signed and an unsigned integer widen to the signed one where it is
/// strictly wider, and to nothing otherwise. An unknown type gives way to
/// the other type. No other pair has a common type.
pub open spec fn max_cast_spec(first: ResolvedTy, second: ResolvedTy) -> Option<ResolvedTy> {
    if first == second {
        Some(first)
    } else {
        match (first, second) {
            (ResolvedTy::IInt(a), ResolvedTy::IInt(b)) => Some(ResolvedTy::IInt(wider(a, b))),
            (ResolvedTy::UInt(a), ResolvedTy::UInt(b)) => Some(ResolvedTy::UInt(wider(a, b))),
            (ResolvedTy::IInt(signed), ResolvedTy::UInt(unsigned)) => signed_over(
                signed,
                unsigned,
            ),
            (ResolvedTy::UInt(unsigned), ResolvedTy::IInt(signed)) => signed_over(
                signed,
                unsigned,
            ),
            (ResolvedTy::Unknown, other) => Some(other),
            (other, ResolvedTy::Unknown) => Some(other),
            _ => None,
        }
    }
}

/// The common type of a signed integer of width `signed` and an unsigned
/// one of width `unsigned`: weak and signed where both are weak, else the
/// signed type where it is strictly wider.
pub open spec fn signed_over(signed: u32, unsigned: u32) -> Option<ResolvedTy> {
    if signed == 0 && unsigned == 0 {
        Some(ResolvedTy::IInt(0))
    } else if signed > unsigned {
        Some(ResolvedTy::IInt(signed))
    } else {
        None
    }
}

/// The type that can represent both `first` and `second`.
pub fn max_cast(first: ResolvedTy, second: ResolvedTy) -> (common: Option<ResolvedTy>)
    ensures
        common == max_cast_spec(first, second),
{
    if first == second {
        return Some(first);
    }
    match (first, second) {
        (ResolvedTy::IInt(a), ResolvedTy::IInt(b)) => Some(
            ResolvedTy::IInt(
                if a >= b {
                    a
                } else {
                    b
                },
            ),
        ),
        (ResolvedTy::UInt(a), ResolvedTy::UInt(b)) => Some(
            ResolvedTy::UInt(
                if a >= b {
                    a
                } else {
                    b
                },
            ),
        ),
        (ResolvedTy::IInt(signed), ResolvedTy::UInt(unsigned)) => widen_signed(signed, unsigned),
        (ResolvedTy::UInt(unsigned), ResolvedTy::IInt(signed)) => widen_signed(signed, unsigned),
        (ResolvedTy::Unknown, other) => Some(other),
        (other, ResolvedTy::Unknown) => Some(other),
        _ => None,
    }
}

fn widen_signed(signed: u32, unsigned: u32) -> (common: Option<ResolvedTy>)
    ensures
        common == signed_over(signed, unsigned),
{
    if signed == 0 && unsigned == 0 {
        Some(ResolvedTy::IInt(0))
    } else if signed > unsigned {
        Some(ResolvedTy::IInt(signed))
    } else {
        None
    }
}

/// The slots that the comparison of two different types goes on to: the
/// pointees of two pointers, and the elements of two arrays of one size.
/// No other two types are compared by their parts.
pub open spec fn parts_to_compare(found: ResolvedTy, expected: ResolvedTy) -> Option<
    (TyId, TyId),
> {
    match (found, expected) {
        (ResolvedTy::Pointer { sub_ty: f }, ResolvedTy::Pointer { sub_ty: e }) => Some((f, e)),
        (
            ResolvedTy::Array { sub_ty: f, size: found_size },
            ResolvedTy::Array { sub_ty: e, size: expected_size },
        ) => if found_size == expected_size {
            Some((f, e))
        } else {
            None
        },
        _ => None,
    }
}

/// Whether `found` fits where `expected` is wanted, for two different
/// types that are not compared by their parts.
///
/// A signed integer fits a signed one, and an unsigned an unsigned one,
/// where the expected width is weak or at least the found width. A signed
/// integer fits a weak unsigned one and no other unsigned one. An
/// unsigned integer fits a signed one that is weak or strictly wider.
/// Nothing else fits.
pub open spec fn fits_at_once(found: ResolvedTy, expected: ResolvedTy) -> bool {
    match (found, expected) {
        (ResolvedTy::IInt(f), ResolvedTy::IInt(e)) => e == 0 || f <= e,
        (ResolvedTy::UInt(f), ResolvedTy::UInt(e)) => e == 0 || f <= e,
        (ResolvedTy::IInt(_), ResolvedTy::UInt(e)) => e == 0,
        (ResolvedTy::UInt(f), ResolvedTy::IInt(e)) => e == 0 || f < e,
        _ => false,
    }
}

/// Whether `found` fits where `expected` is wanted, as far as a descent
/// of at most `depth` steps from a type to its part tells.
///
/// A type fits itself. A pointer fits a pointer where the pointee fits;
/// an array fits an array of the same size where the element fits. Any
/// other two fit as `fits_at_once` says. There is no answer where one of
/// two different types is unknown, where a part that is to be compared is
/// not in the arena, and where `depth` steps do not reach the end.
pub open spec fn fits_within(
    types: Seq<ResolvedTy>,
    found: ResolvedTy,
    expected: ResolvedTy,
    depth: nat,
) -> Option<bool>
    decreases depth,
{
    if found == expected {
        Some(true)
    } else if found is Unknown || expected is Unknown {
        None
    } else {
        match parts_to_compare(found, expected) {
            Some((f, e)) => {
                if depth > 0 && (f.0 as int) < types.len() && (e.0 as int) < types.len() {
                    fits_within(types, types[f.0 as int], types[e.0 as int], (depth - 1) as nat)
                } else {
                    None
                }
            },
            None => Some(fits_at_once(found, expected)),
        }
    }
}

/// Whether `found` and `expected` can be compared: the descent through
/// their parts comes to an end, and meets neither an unknown type beside
/// a different one nor a part outside the arena. Equal types can always
/// be compared.
pub open spec fn comparable(
    types: Seq<ResolvedTy>,
    found: ResolvedTy,
    expected: ResolvedTy,
) -> bool {
    exists|depth: nat| fits_within(types, found, expected, depth) is Some
}

/// Whether a value of type `found` fits where `expected` is wanted.
pub open spec fn fits(types: Seq<ResolvedTy>, found: ResolvedTy, expected: ResolvedTy) -> bool {
    exists|depth: nat| fits_within(types, found, expected, depth) == Some(true)
}

/// The number of slots of the arena that an index can name.
pub open spec fn slot_count(types: Seq<ResolvedTy>) -> int {
    if types.len() > u32::MAX {
        u32::MAX + 1
    } else {
        types.len() as int
    }
}

/// The number of steps after which a descent through the parts of two
/// types has come by one pair of slots twice: one more than the number of
/// pairs of slots that an index can name.
pub open spec fn descent_limit(types: Seq<ResolvedTy>) -> nat {
    (slot_count(types) * slot_count(types) + 1) as nat
}

/// An answer that a descent of some depth gives is the answer of every
/// deeper descent.
pub proof fn lemma_fit_stays(
    types: Seq<ResolvedTy>,
    found: ResolvedTy,
    expected: ResolvedTy,
    depth: nat,
    deeper: nat,
)
    requires
        fits_within(types, found, expected, depth) is Some,
        depth <= deeper,
    ensures
        fits_within(types, found, expected, deeper) == fits_within(types, found, expected, depth),
    decreases depth,
{
    if found != expected && parts_to_compare(found, expected) is Some {
        let (f, e) = parts_to_compare(found, expected).unwrap();
        lemma_fit_stays(
            types,
            types[f.0 as int],
            types[e.0 as int],
            (depth - 1) as nat,
            (deeper - 1) as nat,
        );
    }
}

/// The answer that a descent of some depth gives is whether the one
/// type fits the other.
pub proof fn lemma_fit_decided(
    types: Seq<ResolvedTy>,
    found: ResolvedTy,
    expected: ResolvedTy,
    depth: nat,
)
    requires
        fits_within(types, found, expected, depth) is Some,
    ensures
        comparable(types, found, expected),
        fits_within(types, found, expected, depth) == Some(fits(types, found, expected)),
{
    if fits(types, found, expected) {
        let other = choose|other: nat| fits_within(types, found, expected, other) == Some(true);
        if other <= depth {
            lemma_fit_stays(types, found, expected, other, depth);
        } else {
            lemma_fit_stays(types, found, expected, depth, other);
        }
    }
}

/// The least depth of descent that gives the answer that `depth` gives.
proof fn lemma_least_depth(
    types: Seq<ResolvedTy>,
    found: ResolvedTy,
    expected: ResolvedTy,
    depth: nat,
) -> (least: nat)
    requires
        fits_within(types, found, expected, depth) is Some,
    ensures
        least <= depth,
        fits_within(types, found, expected, least) is Some,
        least > 0 ==> fits_within(types, found, expected, (least - 1) as nat) is None,
    decreases depth,
{
    if depth > 0 && fits_within(types, found, expected, (depth - 1) as nat) is Some {
        lemma_least_depth(types, found, expected, (depth - 1) as nat)
    } else {
        depth
    }
}

/// The number that stands for the pair of the slots `a` and `b`.
spec fn pair_code(types: Seq<ResolvedTy>, a: TyId, b: TyId) -> int {
    a.0 * slot_count(types) + b.0
}

/// Two pairs of slots of the arena with one number are one pair, and
/// the number of a pair is below the number of pairs.
proof fn lemma_pair_code(types: Seq<ResolvedTy>, a: TyId, b: TyId, c: TyId, d: TyId)
    requires
        (a.0 as int) < types.len(),
        (b.0 as int) < types.len(),
        (c.0 as int) < types.len(),
        (d.0 as int) < types.len(),
    ensures
        0 <= pair_code(types, a, b) < slot_count(types) * slot_count(types),
        pair_code(types, a, b) == pair_code(types, c, d) ==> a == c && b == d,
{
    let s = slot_count(types);
    let (a, b, c, d) = (a.0 as int, b.0 as int, c.0 as int, d.0 as int);
    assert(0 <= a * s + b < s * s) by (nonlinear_arith)
        requires
            0 <= a < s,
            0 <= b < s,
    ;
    assert(a * s + b == c * s + d ==> a == c) by (nonlinear_arith)
        requires
            0 <= a < s,
            0 <= b < s,
            0 <= c < s,
            0 <= d < s,
    ;
}

/// A descent that ends comes by no pair of slots twice: with the pairs
/// in `seen` behind it, which all need a deeper descent than the pair
/// `a` and `b`, and the `depth` steps before it, it is still shorter
/// than there are pairs of slots.
proof fn lemma_descent_is_short(
    types: Seq<ResolvedTy>,
    a: TyId,
    b: TyId,
    depth: nat,
    seen: Set<int>,
)
    requires
        (a.0 as int) < types.len(),
        (b.0 as int) < types.len(),
        fits_within(types, types[a.0 as int], types[b.0 as int], depth) is Some,
        depth > 0 ==> fits_within(types, types[a.0 as int], types[b.0 as int], (depth - 1) as nat)
            is None,
        seen.subset_of(set_int_range(0, slot_count(types) * slot_count(types))),
        forall|x: TyId, y: TyId|
            (x.0 as int) < types.len() && (y.0 as int) < types.len() && seen.contains(
                #[trigger] pair_code(types, x, y),
            ) ==> fits_within(types, types[x.0 as int], types[y.0 as int], depth) is None,
    ensures
        seen.len() + depth + 1 <= slot_count(types) * slot_count(types),
    decreases depth,
{
    let s = slot_count(types);
    let all = set_int_range(0, s * s);
    let code = pair_code(types, a, b);
    let more = seen.insert(code);
    lemma_pair_code(types, a, b, a, b);
    lemma_int_range(0, s * s);
    lemma_len_subset(seen, all);
    assert(!seen.contains(code));
    assert(more.subset_of(all));
    if depth == 0 {
        lemma_len_subset(more, all);
    } else {
        let found = types[a.0 as int];
        let expected = types[b.0 as int];
        let before = (depth - 1) as nat;
        assert(parts_to_compare(found, expected) is Some);
        let (f, e) = parts_to_compare(found, expected).unwrap();
        assert forall|x: TyId, y: TyId|
            (x.0 as int) < types.len() && (y.0 as int) < types.len() && more.contains(
                #[trigger] pair_code(types, x, y),
            ) implies fits_within(types, types[x.0 as int], types[y.0 as int], before)
            is None by {
            if pair_code(types, x, y) == code {
                lemma_pair_code(types, x, y, a, b);
            } else if fits_within(types, types[x.0 as int], types[y.0 as int], before) is Some {
                lemma_fit_stays(types, types[x.0 as int], types[y.0 as int], before, depth);
            }
        }
        lemma_descent_is_short(types, f, e, before, more);
    }
}

/// A descent that ends at all ends within `descent_limit` steps.
pub proof fn lemma_descent_ends_in_time(
    types: Seq<ResolvedTy>,
    found: ResolvedTy,
    expected: ResolvedTy,
)
    requires
        comparable(types, found, expected),
    ensures
        fits_within(types, found, expected, descent_limit(types)) is Some,
{
    let s = slot_count(types);
    let depth = choose|depth: nat| fits_within(types, found, expected, depth) is Some;
    assert(s * s >= 0) by (nonlinear_arith);
    if found != expected && parts_to_compare(found, expected) is Some {
        let (f, e) = parts_to_compare(found, expected).unwrap();
        let least = lemma_least_depth(
            types,
            types[f.0 as int],
            types[e.0 as int],
            (depth - 1) as nat,
        );
        lemma_descent_is_short(types, f, e, least, Set::empty());
        lemma_fit_stays(types, types[f.0 as int], types[e.0 as int], least, (s * s) as nat);
    } else {
        lemma_fit_stays(types, found, expected, 0, descent_limit(types));
    }
}

/// The slots to compare of two types.
fn compared_parts(found: ResolvedTy, expected: ResolvedTy) -> (parts: Option<(TyId, TyId)>)
    ensures
        parts == parts_to_compare(found, expected),
{
    match (found, expected) {
        (ResolvedTy::Pointer { sub_ty: f }, ResolvedTy::Pointer { sub_ty: e }) => Some((f, e)),
        (
            ResolvedTy::Array { sub_ty: f, size: found_size },
            ResolvedTy::Array { sub_ty: e, size: expected_size },
        ) => {
            if found_size == expected_size {
                Some((f, e))
            } else {
                None
            }
        },
        _ => None,
    }
}

/// Whether `found` fits `expected`, of two types without parts to compare.
fn fit_at_once(found: ResolvedTy, expected: ResolvedTy) -> (ok: bool)
    ensures
        ok == fits_at_once(found, expected),
{
    match (found, expected) {
        (ResolvedTy::IInt(f), ResolvedTy::IInt(e)) => e == 0 || f <= e,
        (ResolvedTy::UInt(f), ResolvedTy::UInt(e)) => e == 0 || f <= e,
        (ResolvedTy::IInt(_), ResolvedTy::UInt(e)) => e == 0,
        (ResolvedTy::UInt(f), ResolvedTy::IInt(e)) => e == 0 || f < e,
        _ => false,
    }
}

/// Whether `found` fits where `expected` is wanted, by a descent of at
/// most `fuel` steps.
fn fit_with(
    resolved_arena: &Arena<ResolvedTy>,
    found: ResolvedTy,
    expected: ResolvedTy,
    fuel: u128,
) -> (ok: Option<bool>)
    ensures
        ok == fits_within(arena_types(*resolved_arena), found, expected, fuel as nat),
    decreases fuel,
{
    if found == expected {
        return Some(true);
    }
    match (found, expected) {
        (ResolvedTy::Unknown, _) => {
            return None;
        },
        (_, ResolvedTy::Unknown) => {
            return None;
        },
        _ => {},
    }
    match compared_parts(found, expected) {
        Some((f, e)) => {
            let count: usize = ty_count(resolved_arena);
            if fuel == 0 || (f.0 as usize) >= count || (e.0 as usize) >= count {
                None
            } else {
                fit_with(
                    resolved_arena,
                    ty_at(resolved_arena, f),
                    ty_at(resolved_arena, e),
                    fuel - 1,
                )
            }
        },
        None => Some(fit_at_once(found, expected)),
    }
}

/// Whether `found` fits where `expected` is wanted, for any arena and
/// any two types: `None` where the two cannot be compared.
pub fn try_fit(resolved_arena: &Arena<ResolvedTy>, found: ResolvedTy, expected: ResolvedTy) -> (ok:
    Option<bool>)
    ensures
        ok == (if comparable(arena_types(*resolved_arena), found, expected) {
            Some(fits(arena_types(*resolved_arena), found, expected))
        } else {
            None
        }),
        forall|depth: nat|
            (#[trigger] fits_within(arena_types(*resolved_arena), found, expected, depth))
                is Some ==> ok == fits_within(
                arena_types(*resolved_arena),
                found,
                expected,
                depth,
            ),
{
    let count: usize = ty_count(resolved_arena);
    let slots: u128 = if count > 0xffff_ffff {
        0x1_0000_0000
    } else {
        count as u128
    };
    assert(slots * slots <= 0x1_0000_0000_0000_0000u128) by (nonlinear_arith)
        requires
            slots <= 0x1_0000_0000u128,
    ;
    let ok = fit_with(resolved_arena, found, expected, slots * slots + 1);
    proof {
        let types = arena_types(*resolved_arena);
        if ok is Some {
            lemma_fit_decided(types, found, expected, descent_limit(types));
        } else if comparable(types, found, expected) {
            lemma_descent_ends_in_time(types, found, expected);
        }
        assert forall|depth: nat|
            (#[trigger] fits_within(types, found, expected, depth)) is Some implies ok
            == fits_within(
            types,
            found,
            expected,
            depth,
        ) by {
            lemma_fit_decided(types, found, expected, depth);
        }
    }
    ok
}

/// Whether `found` fits where `expected` is wanted, where a descent of
/// `depth` steps tells.
fn fit_within(
    resolved_arena: &Arena<ResolvedTy>,
    found: ResolvedTy,
    expected: ResolvedTy,
    Ghost(depth): Ghost<nat>,
) -> (ok: bool)
    requires
        fits_within(arena_types(*resolved_arena), found, expected, depth) is Some,
    ensures
        fits_within(arena_types(*resolved_arena), found, expected, depth) == Some(ok),
    decreases depth,
{
    if found == expected {
        return true;
    }
    match compared_parts(found, expected) {
        Some((f, e)) => fit_within(
            resolved_arena,
            ty_at(resolved_arena, f),
            ty_at(resolved_arena, e),
            Ghost((depth - 1) as nat),
        ),
        None => fit_at_once(found, expected),
    }
}

/// Whether `found` fits where `expected` is wanted. Two equal types are
/// always accepted. Of two others, an unknown type is not accepted,
/// neither at the top nor where the comparison descends to; nor is a
/// part outside the arena, nor a descent that does not end.
pub fn can_fit(resolved_arena: &Arena<ResolvedTy>, found: ResolvedTy, expected: ResolvedTy) -> (ok:
    bool)
    requires
        comparable(arena_types(*resolved_arena), found, expected),
    ensures
        ok == fits(arena_types(*resolved_arena), found, expected),
        forall|depth: nat|
            (#[trigger] fits_within(arena_types(*resolved_arena), found, expected, depth))
                is Some ==> Some(ok) == fits_within(
                arena_types(*resolved_arena),
                found,
                expected,
                depth,
            ),
{
    let ghost types = arena_types(*resolved_arena);
    let ghost depth = choose|depth: nat| fits_within(types, found, expected, depth) is Some;
    let ok = fit_within(resolved_arena, found, expected, Ghost(depth));
    proof {
        lemma_fit_decided(types, found, expected, depth);
        assert forall|other: nat|
            (#[trigger] fits_within(types, found, expected, other)) is Some implies Some(ok)
            == fits_within(
            types,
            found,
            expected,
            other,
        ) by {
            lemma_fit_decided(types, found, expected, other);
        }
    }
    ok
}

/// Whether an explicit cast may turn `from` into `to`, beyond what fits
/// anyway: booleans and integers of any width and sign cast freely among
/// each other, and integers and floats cast to floats and back.
pub open spec fn castable(from: ResolvedTy, to: ResolvedTy) -> bool {
    ||| (from is Bool || from.is_int()) && (to is Bool || to.is_int())
    ||| (from.is_int() || from is Float) && to is Float
    ||| from is Float && to.is_int()
}

/// Whether an explicit cast may turn `from` into `to`.
pub fn primitive_castable(from: ResolvedTy, to: ResolvedTy) -> (ok: bool)
    ensures
        ok == castable(from, to),
{
    match (from, to) {
        (
            ResolvedTy::Bool | ResolvedTy::IInt(_) | ResolvedTy::UInt(_),
            ResolvedTy::Bool | ResolvedTy::IInt(_) | ResolvedTy::UInt(_),
        ) => true,
        (
            ResolvedTy::IInt(_) | ResolvedTy::UInt(_) | ResolvedTy::Float(_),
            ResolvedTy::Float(_),
        ) => true,
        (ResolvedTy::Float(_), ResolvedTy::IInt(_) | ResolvedTy::UInt(_)) => true,
        _ => false,
    }
}

/// Every type fits itself, and can be compared with itself, whatever
/// the arena holds.
pub proof fn lemma_fit_reflexive(types: Seq<ResolvedTy>, ty: ResolvedTy)
    ensures
        fits(types, ty, ty),
        comparable(types, ty, ty),
{
    assert(fits_within(types, ty, ty, 0) == Some(true));
}

/// Two different known types that are not compared by their parts can
/// be compared in any arena, and fit as `fits_at_once` says.
pub proof fn lemma_fit_at_once(types: Seq<ResolvedTy>, found: ResolvedTy, expected: ResolvedTy)
    requires
        found != expected,
        !(found is Unknown),
        !(expected is Unknown),
        parts_to_compare(found, expected) is None,
    ensures
        comparable(types, found, expected),
        fits(types, found, expected) == fits_at_once(found, expected),
{
    lemma_fit_decided(types, found, expected, 0);
}

/// Two different pointers, or two different arrays of one size, can be
/// compared exactly when both parts are in the arena and can be compared,
/// and the one fits the other exactly when its part fits the other's.
pub proof fn lemma_fit_by_parts(
    types: Seq<ResolvedTy>,
    found: ResolvedTy,
    expected: ResolvedTy,
    f: TyId,
    e: TyId,
)
    requires
        found != expected,
        parts_to_compare(found, expected) == Some((f, e)),
    ensures
        comparable(types, found, expected) == ((f.0 as int) < types.len() && (e.0 as int)
            < types.len() && comparable(types, types[f.0 as int], types[e.0 as int])),
        fits(types, found, expected) == ((f.0 as int) < types.len() && (e.0 as int) < types.len()
            && fits(types, types[f.0 as int], types[e.0 as int])),
{
    let inside = (f.0 as int) < types.len() && (e.0 as int) < types.len();
    if comparable(types, found, expected) {
        let depth = choose|depth: nat| fits_within(types, found, expected, depth) is Some;
        assert(fits_within(types, types[f.0 as int], types[e.0 as int], (depth - 1) as nat)
            is Some);
    }
    if fits(types, found, expected) {
        let depth = choose|depth: nat| fits_within(types, found, expected, depth) == Some(true);
        assert(fits_within(types, types[f.0 as int], types[e.0 as int], (depth - 1) as nat)
            == Some(true));
    }
    if inside && comparable(types, types[f.0 as int], types[e.0 as int]) {
        let depth = choose|depth: nat|
            fits_within(types, types[f.0 as int], types[e.0 as int], depth) is Some;
        assert(fits_within(types, found, expected, depth + 1) is Some);
    }
    if inside && fits(types, types[f.0 as int], types[e.0 as int]) {
        let depth = choose|depth: nat|
            fits_within(types, types[f.0 as int], types[e.0 as int], depth) == Some(true);
        assert(fits_within(types, found, expected, depth + 1) == Some(true));
    }
}

/// An unsigned integer does not fit the signed integer of its own width,
/// but fits the signed integer one bit wider.
pub proof fn lemma_fit_unsigned_into_signed(types: Seq<ResolvedTy>, width: u32)
    requires
        0 < width < u32::MAX,
    ensures
        !fits(types, ResolvedTy::UInt(width), ResolvedTy::IInt(width)),
        fits(types, ResolvedTy::UInt(width), ResolvedTy::IInt((width + 1) as u32)),
{
    lemma_fit_at_once(types, ResolvedTy::UInt(width), ResolvedTy::IInt(width));
    lemma_fit_at_once(types, ResolvedTy::UInt(width), ResolvedTy::IInt((width + 1) as u32));
}

/// A signed integer fits the weak unsigned integer and no unsigned integer
/// of a width.
pub proof fn lemma_fit_signed_into_unsigned(types: Seq<ResolvedTy>, signed: u32, unsigned: u32)
    ensures
        fits(types, ResolvedTy::IInt(signed), ResolvedTy::UInt(0)),
        unsigned > 0 ==> !fits(types, ResolvedTy::IInt(signed), ResolvedTy::UInt(unsigned)),
{
    lemma_fit_at_once(types, ResolvedTy::IInt(signed), ResolvedTy::UInt(0));
    lemma_fit_at_once(types, ResolvedTy::IInt(signed), ResolvedTy::UInt(unsigned));
}

/// Casts between booleans and signed integers go both ways; a pointer
/// casts to no integer.
pub proof fn lemma_cast_symmetry(width: u32, pointer: ResolvedTy, integer: ResolvedTy)
    requires
        pointer is Pointer,
        integer.is_int(),
    ensures
        castable(ResolvedTy::Bool, ResolvedTy::IInt(width)),
        castable(ResolvedTy::IInt(width), ResolvedTy::Bool),
        !castable(pointer, integer),
{
}

/// A cast is allowed exactly when the reverse cast is.
pub proof fn lemma_cast_reversible(from: ResolvedTy, to: ResolvedTy)
    ensures
        castable(from, to) == castable(to, from),
{
}

} // verus!
