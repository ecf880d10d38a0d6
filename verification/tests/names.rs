use capy::interner::{Interner, Key};
use capy::uid::UIDGenerator;

#[test]
fn equal_strings_get_equal_keys() {
    let mut interner = Interner::default();
    let a = interner.intern("alpha");
    let b = interner.intern("beta");
    let again = interner.intern("alpha");
    assert_eq!(a, again);
    assert_ne!(a, b);
    assert_eq!(interner.len(), 2);
}

#[test]
fn keys_are_positions_and_look_up_to_their_strings() {
    let mut interner = Interner::new();
    let words = ["", "a", "ab", "b", "🦀", "a b"];
    let keys: Vec<Key> = words.iter().map(|word| interner.intern(word)).collect();
    for (position, (word, key)) in words.iter().zip(&keys).enumerate() {
        assert_eq!(key.to_raw() as usize, position);
        assert_eq!(interner.lookup(*key), *word);
        assert_eq!(interner.get(word), Some(*key));
    }
    assert_eq!(interner.get("c"), None);
    assert_eq!(Key::from_raw(3), keys[3]);
}

#[test]
fn interning_distinguishes_byte_strings() {
    let mut interner = Interner::new();
    let plain = interner.intern("e");
    let accent = interner.intern("é");
    let upper = interner.intern("E");
    assert!(plain != accent && plain != upper && accent != upper);
}

#[test]
fn unique_ids_grow_by_one() {
    let mut gen = UIDGenerator::new();
    let mut seen = Vec::new();
    for expected in 0..100u32 {
        assert!(gen.has_next());
        let uid = gen.generate_unique_id();
        assert_eq!(uid, expected);
        assert!(!seen.contains(&uid));
        seen.push(uid);
    }
    assert_eq!(gen.next, 100);
}

#[test]
fn the_last_unique_id_is_not_handed_out_twice() {
    let mut gen = UIDGenerator { next: u32::MAX - 1 };
    assert!(gen.has_next());
    assert_eq!(gen.generate_unique_id(), u32::MAX - 1);
    assert!(!gen.has_next());
}
