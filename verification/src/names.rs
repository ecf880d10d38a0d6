//! Identities of globals: names, files, and fully qualified names.

use crate::interner::Key;
use crate::text_range::TextRange;
use vstd::prelude::*;

verus! {

/// An interned identifier.
#[derive(Clone, Copy, Debug, PartialEq, Eq, Structural, Hash, PartialOrd, Ord)]
pub struct Name(pub Key);

/// An interned canonical path of a source file.
#[derive(Clone, Copy, Debug, PartialEq, Eq, Structural, Hash, PartialOrd, Ord)]
pub struct FileName(pub Key);

/// The identity of a global across files: the file that defines it and
/// its name there.
#[derive(Clone, Copy, Debug, PartialEq, Eq, Structural, Hash)]
pub struct Fqn {
    pub file: FileName,
    pub name: Name,
}

/// A name together with the place where it is written.
#[derive(Clone, Copy, Debug, PartialEq, Eq, Structural)]
pub struct NameWithRange {
    pub name: Name,
    pub range: TextRange,
}

/// One block of compile-time code: the global that holds it and the
/// block's index in the arena of that global's file.
#[derive(Clone, Copy, Debug, PartialEq, Eq, Structural, Hash)]
pub struct FQComptime {
    pub fqn: Fqn,
    pub comptime: u32,
}

} // verus!
