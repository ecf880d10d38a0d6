use capy::cast::{can_fit, max_cast, primitive_castable};
use capy::ty::{ResolvedTy, TyId};
use la_arena::Arena;

fn id(arena: &mut Arena<ResolvedTy>, ty: ResolvedTy) -> TyId {
    TyId(arena.alloc(ty).into_raw().into_u32())
}

#[test]
fn equal_types_widen_to_themselves() {
    assert_eq!(max_cast(ResolvedTy::Bool, ResolvedTy::Bool), Some(ResolvedTy::Bool));
    assert_eq!(max_cast(ResolvedTy::IInt(8), ResolvedTy::IInt(8)), Some(ResolvedTy::IInt(8)));
}

#[test]
fn weak_integers_widen() {
    assert_eq!(max_cast(ResolvedTy::UInt(0), ResolvedTy::UInt(0)), Some(ResolvedTy::UInt(0)));
    assert_eq!(max_cast(ResolvedTy::UInt(0), ResolvedTy::IInt(0)), Some(ResolvedTy::IInt(0)));
    assert_eq!(max_cast(ResolvedTy::IInt(0), ResolvedTy::UInt(0)), Some(ResolvedTy::IInt(0)));
    assert_eq!(max_cast(ResolvedTy::IInt(0), ResolvedTy::IInt(16)), Some(ResolvedTy::IInt(16)));
    assert_eq!(max_cast(ResolvedTy::UInt(0), ResolvedTy::UInt(8)), Some(ResolvedTy::UInt(8)));
}

#[test]
fn integers_of_one_sign_widen_to_the_wider() {
    assert_eq!(max_cast(ResolvedTy::IInt(8), ResolvedTy::IInt(16)), Some(ResolvedTy::IInt(16)));
    assert_eq!(max_cast(ResolvedTy::IInt(64), ResolvedTy::IInt(16)), Some(ResolvedTy::IInt(64)));
    assert_eq!(max_cast(ResolvedTy::UInt(8), ResolvedTy::UInt(32)), Some(ResolvedTy::UInt(32)));
}

#[test]
fn mixed_signs_widen_to_a_strictly_wider_signed_integer() {
    assert_eq!(max_cast(ResolvedTy::IInt(16), ResolvedTy::UInt(8)), Some(ResolvedTy::IInt(16)));
    assert_eq!(max_cast(ResolvedTy::UInt(8), ResolvedTy::IInt(16)), Some(ResolvedTy::IInt(16)));
    assert_eq!(max_cast(ResolvedTy::IInt(8), ResolvedTy::UInt(8)), None);
    assert_eq!(max_cast(ResolvedTy::UInt(16), ResolvedTy::IInt(8)), None);
    assert_eq!(max_cast(ResolvedTy::IInt(0), ResolvedTy::UInt(8)), None);
    assert_eq!(max_cast(ResolvedTy::IInt(8), ResolvedTy::UInt(0)), Some(ResolvedTy::IInt(8)));
}

#[test]
fn a_break_value_widens() {
    // `y: i8` and `y: i16` meet in `i16`
    assert_eq!(max_cast(ResolvedTy::IInt(8), ResolvedTy::IInt(16)), Some(ResolvedTy::IInt(16)));
}

#[test]
fn unknown_gives_way() {
    assert_eq!(max_cast(ResolvedTy::Unknown, ResolvedTy::Char), Some(ResolvedTy::Char));
    assert_eq!(max_cast(ResolvedTy::String, ResolvedTy::Unknown), Some(ResolvedTy::String));
    assert_eq!(max_cast(ResolvedTy::Unknown, ResolvedTy::Unknown), Some(ResolvedTy::Unknown));
}

#[test]
fn other_pairs_have_no_common_type() {
    assert_eq!(max_cast(ResolvedTy::Bool, ResolvedTy::IInt(8)), None);
    assert_eq!(max_cast(ResolvedTy::String, ResolvedTy::Char), None);
    assert_eq!(max_cast(ResolvedTy::Float(32), ResolvedTy::Float(64)), None);
}

#[test]
fn a_type_fits_itself() {
    let arena = Arena::new();
    for ty in [
        ResolvedTy::Void,
        ResolvedTy::Bool,
        ResolvedTy::IInt(32),
        ResolvedTy::UInt(0),
        ResolvedTy::Float(64),
        ResolvedTy::String,
        ResolvedTy::MetaTy,
        ResolvedTy::Unknown,
        ResolvedTy::Pointer { sub_ty: TyId(5) },
        ResolvedTy::Array { size: 2, sub_ty: TyId(7) },
    ] {
        assert!(can_fit(&arena, ty, ty));
        assert_eq!(capy::cast::try_fit(&arena, ty, ty), Some(true));
    }
}

#[test]
fn integers_fit_by_width() {
    let arena = Arena::new();
    assert!(can_fit(&arena, ResolvedTy::IInt(8), ResolvedTy::IInt(16)));
    assert!(!can_fit(&arena, ResolvedTy::IInt(16), ResolvedTy::IInt(8)));
    assert!(can_fit(&arena, ResolvedTy::IInt(64), ResolvedTy::IInt(0)));
    assert!(can_fit(&arena, ResolvedTy::UInt(8), ResolvedTy::UInt(8)));
    assert!(can_fit(&arena, ResolvedTy::UInt(0), ResolvedTy::UInt(8)));
    assert!(!can_fit(&arena, ResolvedTy::UInt(32), ResolvedTy::UInt(16)));
}

#[test]
fn an_unsigned_integer_fits_a_strictly_wider_signed_one() {
    let arena = Arena::new();
    for width in [8u32, 16, 32, 64] {
        assert!(!can_fit(&arena, ResolvedTy::UInt(width), ResolvedTy::IInt(width)));
        assert!(can_fit(&arena, ResolvedTy::UInt(width), ResolvedTy::IInt(width + 1)));
    }
    assert!(can_fit(&arena, ResolvedTy::UInt(64), ResolvedTy::IInt(0)));
    // the weak integers: the width 0 of the signed one says "any width"
    assert!(can_fit(&arena, ResolvedTy::UInt(0), ResolvedTy::IInt(0)));
}

#[test]
fn a_signed_integer_fits_only_the_weak_unsigned_one() {
    let arena = Arena::new();
    for width in [0u32, 8, 32] {
        assert!(can_fit(&arena, ResolvedTy::IInt(width), ResolvedTy::UInt(0)));
        assert!(!can_fit(&arena, ResolvedTy::IInt(width), ResolvedTy::UInt(8)));
        assert!(!can_fit(&arena, ResolvedTy::IInt(width), ResolvedTy::UInt(64)));
    }
}

#[test]
fn a_mismatch_of_minus_one_and_u32() {
    // `x: u32 = -1`: the weak signed integer does not fit `u32`
    let arena = Arena::new();
    assert!(!can_fit(&arena, ResolvedTy::IInt(0), ResolvedTy::UInt(32)));
}

#[test]
fn pointers_fit_by_their_pointees() {
    let mut arena = Arena::new();
    let i8_ = id(&mut arena, ResolvedTy::IInt(8));
    let i16_ = id(&mut arena, ResolvedTy::IInt(16));
    let ptr_i8 = id(&mut arena, ResolvedTy::Pointer { sub_ty: i8_ });
    let ptr_i16 = id(&mut arena, ResolvedTy::Pointer { sub_ty: i16_ });
    assert!(can_fit(
        &arena,
        ResolvedTy::Pointer { sub_ty: i8_ },
        ResolvedTy::Pointer { sub_ty: i16_ }
    ));
    assert!(!can_fit(
        &arena,
        ResolvedTy::Pointer { sub_ty: i16_ },
        ResolvedTy::Pointer { sub_ty: i8_ }
    ));
    assert!(can_fit(
        &arena,
        ResolvedTy::Pointer { sub_ty: ptr_i8 },
        ResolvedTy::Pointer { sub_ty: ptr_i16 }
    ));
    assert!(!can_fit(&arena, ResolvedTy::Pointer { sub_ty: i8_ }, ResolvedTy::IInt(64)));
}

#[test]
fn arrays_fit_by_size_and_element() {
    let mut arena = Arena::new();
    let u8_ = id(&mut arena, ResolvedTy::UInt(8));
    let u16_ = id(&mut arena, ResolvedTy::UInt(16));
    let small = ResolvedTy::Array { size: 3, sub_ty: u8_ };
    assert!(can_fit(&arena, small, ResolvedTy::Array { size: 3, sub_ty: u16_ }));
    assert!(!can_fit(&arena, small, ResolvedTy::Array { size: 4, sub_ty: u16_ }));
    assert!(!can_fit(&arena, ResolvedTy::Array { size: 3, sub_ty: u16_ }, small));
    assert!(!can_fit(&arena, small, ResolvedTy::Slice { sub_ty: u8_ }));
}

#[test]
fn a_descent_that_does_not_end_is_not_made() {
    let mut arena = Arena::new();
    let first = id(&mut arena, ResolvedTy::Pointer { sub_ty: TyId(0) });
    let second = id(&mut arena, ResolvedTy::Pointer { sub_ty: TyId(1) });
    let i8_ = id(&mut arena, ResolvedTy::IInt(8));
    let found = ResolvedTy::Pointer { sub_ty: first };
    let expected = ResolvedTy::Pointer { sub_ty: second };
    // each of the two points to itself: the descent comes back to them
    assert_eq!(capy::cast::try_fit(&arena, found, expected), None);
    assert_eq!(capy::cast::try_fit(&arena, expected, found), None);
    // beside a type of another kind the descent ends at once
    let to_i8 = ResolvedTy::Pointer { sub_ty: i8_ };
    assert_eq!(capy::cast::try_fit(&arena, found, to_i8), Some(false));
    assert!(!can_fit(&arena, found, to_i8));
    assert_eq!(capy::cast::try_fit(&arena, to_i8, found), Some(false));
    // and equal types are not looked into
    assert_eq!(capy::cast::try_fit(&arena, found, found), Some(true));
    assert!(can_fit(&arena, found, found));
}

#[test]
fn a_descent_through_two_slots_in_turn_does_not_end() {
    let mut arena = Arena::new();
    // 0 -> 1 -> 0, and 2 -> 3 -> 4 -> 2
    id(&mut arena, ResolvedTy::Pointer { sub_ty: TyId(1) });
    id(&mut arena, ResolvedTy::Pointer { sub_ty: TyId(0) });
    id(&mut arena, ResolvedTy::Pointer { sub_ty: TyId(3) });
    id(&mut arena, ResolvedTy::Pointer { sub_ty: TyId(4) });
    id(&mut arena, ResolvedTy::Pointer { sub_ty: TyId(2) });
    let found = ResolvedTy::Pointer { sub_ty: TyId(0) };
    let expected = ResolvedTy::Pointer { sub_ty: TyId(2) };
    assert_eq!(capy::cast::try_fit(&arena, found, expected), None);
}

#[test]
fn the_parts_of_a_type_stand_anywhere_in_the_arena() {
    let mut arena = Arena::new();
    id(&mut arena, ResolvedTy::Pointer { sub_ty: TyId(1) });
    id(&mut arena, ResolvedTy::IInt(32));
    id(&mut arena, ResolvedTy::Pointer { sub_ty: TyId(1) });
    id(&mut arena, ResolvedTy::Pointer { sub_ty: TyId(4) });
    id(&mut arena, ResolvedTy::IInt(64));
    id(&mut arena, ResolvedTy::IInt(16));
    // the pointees are the same pointer type, in two slots
    let found = ResolvedTy::Pointer { sub_ty: TyId(0) };
    let expected = ResolvedTy::Pointer { sub_ty: TyId(2) };
    assert!(can_fit(&arena, found, expected));
    assert_eq!(capy::cast::try_fit(&arena, found, expected), Some(true));
    // a pointer to a pointer, each part in a slot behind its whole
    let wider = ResolvedTy::Pointer { sub_ty: TyId(3) };
    assert!(can_fit(&arena, found, wider));
    assert!(!can_fit(&arena, wider, found));
    let narrower = ResolvedTy::Pointer { sub_ty: TyId(5) };
    assert!(!can_fit(&arena, ResolvedTy::Pointer { sub_ty: TyId(0) }, narrower));
    let to_i32 = ResolvedTy::Pointer { sub_ty: TyId(1) };
    assert!(can_fit(&arena, narrower, to_i32));
}

#[test]
fn slices_are_not_looked_into() {
    let mut arena = Arena::new();
    id(&mut arena, ResolvedTy::Slice { sub_ty: TyId(1) });
    id(&mut arena, ResolvedTy::IInt(8));
    id(&mut arena, ResolvedTy::Slice { sub_ty: TyId(1) });
    id(&mut arena, ResolvedTy::Slice { sub_ty: TyId(9) });
    let found = ResolvedTy::Pointer { sub_ty: TyId(0) };
    assert!(can_fit(&arena, found, ResolvedTy::Pointer { sub_ty: TyId(2) }));
    assert!(!can_fit(&arena, found, ResolvedTy::Pointer { sub_ty: TyId(3) }));
    assert!(!can_fit(&arena, found, ResolvedTy::Pointer { sub_ty: TyId(1) }));
}

#[test]
fn booleans_and_integers_cast_freely() {
    for n in [0u32, 8, 16, 32, 64] {
        assert!(primitive_castable(ResolvedTy::Bool, ResolvedTy::IInt(n)));
        assert!(primitive_castable(ResolvedTy::IInt(n), ResolvedTy::Bool));
        assert!(primitive_castable(ResolvedTy::UInt(n), ResolvedTy::IInt(64)));
        assert!(primitive_castable(ResolvedTy::IInt(n), ResolvedTy::UInt(8)));
    }
    assert!(primitive_castable(ResolvedTy::Bool, ResolvedTy::Bool));
}

#[test]
fn numbers_cast_to_floats_and_back() {
    assert!(primitive_castable(ResolvedTy::Float(32), ResolvedTy::IInt(32)));
    assert!(primitive_castable(ResolvedTy::IInt(32), ResolvedTy::Float(64)));
    assert!(primitive_castable(ResolvedTy::UInt(8), ResolvedTy::Float(32)));
    assert!(primitive_castable(ResolvedTy::Float(32), ResolvedTy::Float(64)));
    assert!(!primitive_castable(ResolvedTy::Bool, ResolvedTy::Float(32)));
    assert!(!primitive_castable(ResolvedTy::Float(32), ResolvedTy::Bool));
}

#[test]
fn a_pointer_casts_to_no_integer() {
    let mut arena = Arena::new();
    let sub_ty = id(&mut arena, ResolvedTy::IInt(8));
    assert!(!primitive_castable(ResolvedTy::Pointer { sub_ty }, ResolvedTy::IInt(64)));
    assert!(!primitive_castable(ResolvedTy::IInt(64), ResolvedTy::Pointer { sub_ty }));
    assert!(!primitive_castable(ResolvedTy::String, ResolvedTy::UInt(8)));
}

#[test]
fn a_comparison_that_cannot_be_made_gives_nothing() {
    use_try_fit();
}

fn use_try_fit() {
    let mut arena = Arena::new();
    let i8_ = id(&mut arena, ResolvedTy::IInt(8));
    let unknown = id(&mut arena, ResolvedTy::Unknown);
    let ptr_i8 = ResolvedTy::Pointer { sub_ty: i8_ };
    let ptr_unknown = ResolvedTy::Pointer { sub_ty: unknown };
    assert_eq!(capy::cast::try_fit(&arena, ResolvedTy::IInt(8), ResolvedTy::IInt(16)), Some(true));
    assert_eq!(capy::cast::try_fit(&arena, ResolvedTy::IInt(16), ResolvedTy::IInt(8)), Some(false));
    assert_eq!(capy::cast::try_fit(&arena, ptr_i8, ptr_i8), Some(true));
    assert_eq!(capy::cast::try_fit(&arena, ptr_unknown, ptr_unknown), Some(true));
    assert_eq!(capy::cast::try_fit(&arena, ResolvedTy::Unknown, ResolvedTy::Bool), None);
    assert_eq!(capy::cast::try_fit(&arena, ResolvedTy::Bool, ResolvedTy::Unknown), None);
    assert_eq!(capy::cast::try_fit(&arena, ptr_i8, ptr_unknown), None);
    assert_eq!(capy::cast::try_fit(&arena, ptr_unknown, ptr_i8), None);
    // a part that the arena lacks
    assert_eq!(
        capy::cast::try_fit(&arena, ResolvedTy::Pointer { sub_ty: TyId(9) }, ptr_i8),
        None
    );
    assert_eq!(
        capy::cast::try_fit(&arena, ptr_i8, ResolvedTy::Pointer { sub_ty: TyId(9) }),
        None
    );
    // pointers to one slot are equal, whatever the slot holds
    assert_eq!(capy::cast::try_fit(&arena, ptr_unknown, ptr_unknown), Some(true));
    // two slots with unknown types are compared as equal types
    let other_unknown = id(&mut arena, ResolvedTy::Unknown);
    assert_eq!(
        capy::cast::try_fit(&arena, ptr_unknown, ResolvedTy::Pointer { sub_ty: other_unknown }),
        Some(true)
    );
}
