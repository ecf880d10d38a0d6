//! Interning of identifiers and strings into small integer keys.

use vstd::prelude::*;
use vstd::string::StringExecFns;

verus! {

/// The handle of an interned string.
#[derive(Clone, Copy, Debug, PartialEq, Eq, Structural, Hash, PartialOrd, Ord)]
pub struct Key(pub u32);

impl Key {
    /// The key with the given number.
    pub fn from_raw(raw: u32) -> (key: Key)
        ensures
            key == Key(raw),
    {
        Key(raw)
    }

    /// The key's number: its position in the interner's table.
    pub fn to_raw(self) -> (raw: u32)
        ensures
            raw == self.0,
    {
        self.0
    }
}

/// A table of distinct strings. A string's key is its position in the table.
#[derive(Clone, Debug)]
pub struct Interner {
    strings: Vec<String>,
}

/// The position of `text` in `table`, if it occurs there.
pub open spec fn position_of(table: Seq<Seq<char>>, text: Seq<char>) -> Option<int> {
    if exists|i: int| 0 <= i < table.len() && table[i] == text {
        Some(choose|i: int| 0 <= i < table.len() && table[i] == text)
    } else {
        None
    }
}

/// No string occurs twice in `table`.
pub open spec fn distinct(table: Seq<Seq<char>>) -> bool {
    forall|i: int, j: int| 0 <= i < j < table.len() ==> table[i] != table[j]
}

/// The table after `text` was interned: unchanged where `text` is in it,
/// else with `text` appended.
pub open spec fn table_with(table: Seq<Seq<char>>, text: Seq<char>) -> Seq<Seq<char>> {
    if position_of(table, text) is Some {
        table
    } else {
        table.push(text)
    }
}

/// The key of `text` once it was interned into `table`.
pub open spec fn key_in(table: Seq<Seq<char>>, text: Seq<char>) -> int {
    match position_of(table, text) {
        Some(i) => i,
        None => table.len() as int,
    }
}

impl View for Interner {
    type V = Seq<Seq<char>>;

    closed spec fn view(&self) -> Seq<Seq<char>> {
        Seq::new(self.strings@.len(), |i: int| self.strings@[i]@)
    }
}

impl Interner {
    /// The table holds no string twice and fits 32-bit keys.
    pub open spec fn wf(&self) -> bool {
        &&& distinct(self@)
        &&& self@.len() <= u32::MAX
    }

    /// Whether `key` was handed out by this interner.
    pub open spec fn has_key(&self, key: Key) -> bool {
        (key.0 as int) < self@.len()
    }

    /// An empty interner.
    pub fn new() -> (interner: Interner)
        ensures
            interner@ == Seq::<Seq<char>>::empty(),
            interner.wf(),
    {
        let interner = Interner { strings: Vec::new() };
        assert(interner@ =~= Seq::<Seq<char>>::empty());
        interner
    }

    /// The number of strings interned so far.
    pub fn len(&self) -> (n: usize)
        ensures
            n == self@.len(),
    {
        self.strings.len()
    }

    /// The key of `text` if it was interned before.
    pub fn get(&self, text: &str) -> (found: Option<Key>)
        requires
            self.wf(),
        ensures
            match found {
                Some(key) => position_of(self@, text@) == Some(key.0 as int),
                None => position_of(self@, text@) is None,
            },
    {
        let wanted = String::from_str(text);
        let mut i: usize = 0;
        while i < self.strings.len()
            invariant
                self.wf(),
                wanted@ == text@,
                i <= self.strings.len(),
                forall|j: int| 0 <= j < i ==> self@[j] != text@,
            decreases self.strings.len() - i,
        {
            if self.strings[i] == wanted {
                proof {
                    assert(self@[i as int] == text@);
                    let p = choose|p: int| 0 <= p < self@.len() && self@[p] == text@;
                    assert(p == i) by {
                        if p < i {
                            assert(self@[p] != self@[i as int]);
                        } else if p > i {
                            assert(self@[i as int] != self@[p]);
                        }
                    }
                }
                return Some(Key(i as u32));
            }
            i = i + 1;
        }
        None
    }

    /// The key of `text`: the one it already has, or else a new one, the
    /// next free position. Either way the key looks up to `text`, and the
    /// keys handed out before keep their strings.
    pub fn intern(&mut self, text: &str) -> (key: Key)
        requires
            old(self).wf(),
            old(self)@.len() < u32::MAX || position_of(old(self)@, text@) is Some,
        ensures
            final(self).wf(),
            final(self)@ == table_with(old(self)@, text@),
            key.0 == key_in(old(self)@, text@),
            final(self).has_key(key),
            final(self)@[key.0 as int] == text@,
            old(self)@.len() <= final(self)@.len() <= old(self)@.len() + 1,
            forall|i: int| 0 <= i < old(self)@.len() ==> final(self)@[i] == old(self)@[i],
    {
        match self.get(text) {
            Some(key) => key,
            None => {
                let n: usize = self.strings.len();
                self.strings.push(String::from_str(text));
                assert(self@ =~= old(self)@.push(text@));
                Key(n as u32)
            },
        }
    }

    /// The string that `key` stands for.
    pub fn lookup(&self, key: Key) -> (text: &str)
        requires
            self.has_key(key),
        ensures
            text@ == self@[key.0 as int],
    {
        self.strings[key.0 as usize].as_str()
    }
}

impl Default for Interner {
    fn default() -> (interner: Interner)
        ensures
            interner@ == Seq::<Seq<char>>::empty(),
            interner.wf(),
    {
        Interner::new()
    }
}

/// Two strings get the same key exactly when they are the same string,
/// whether the second is interned right after the first or later, after
/// any number of other strings.
pub proof fn lemma_intern_injective(
    table: Seq<Seq<char>>,
    a: Seq<char>,
    later: Seq<Seq<char>>,
    b: Seq<char>,
)
    requires
        distinct(table),
        distinct(later),
        table_with(table, a).len() <= later.len(),
        forall|i: int| 0 <= i < table_with(table, a).len() ==> later[i] == table_with(table, a)[i],
    ensures
        key_in(table, a) == key_in(later, b) <==> a == b,
{
    let first = table_with(table, a);
    let ka = key_in(table, a);
    assert(0 <= ka < first.len() && first[ka] == a);
    assert(later[ka] == a);
    if a == b {
        assert(position_of(later, b) is Some);
        let kb = key_in(later, b);
        assert(later[kb] == b);
        if ka < kb {
            assert(later[ka] != later[kb]);
        } else if kb < ka {
            assert(later[kb] != later[ka]);
        }
    } else {
        let kb = key_in(later, b);
        if position_of(later, b) is Some {
            assert(later[kb] == b);
        }
    }
}

/// The text of `key`; `<unknown>` for a key that the table lacks.
pub open spec fn name_text(names: Seq<Seq<char>>, key: Key) -> Seq<char> {
    if (key.0 as int) < names.len() {
        names[key.0 as int]
    } else {
        "<unknown>"@
    }
}

} // verus!
