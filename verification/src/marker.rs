//! Markers of the parser: a marker holds the place of a syntax node
//! whose kind is not known yet among the parser's events.

use drop_bomb::DropBomb;
use vstd::prelude::*;

verus! {

/// `drop_bomb::DropBomb`, a value that panics when it is dropped before
/// it is defused.
#[verifier::external_type_specification]
#[verifier::external_body]
pub struct ExDropBomb(DropBomb);

/// The kinds of nodes of the syntax tree.
#[derive(Debug, Clone, Copy, PartialEq, Eq, Structural)]
pub enum NodeKind {
    Root,
    Define,
    Assign,
    ExprStmt,
    Ty,
    CastExpr,
    RefExpr,
    DerefExpr,
    BinaryExpr,
    UnaryExpr,
    Array,
    ArraySize,
    ArrayBody,
    ArrayItem,
    Block,
    IfExpr,
    ElseBranch,
    WhileExpr,
    Condition,
    Call,
    ArgList,
    Arg,
    IndexExpr,
    VarRef,
    Path,
    IntLiteral,
    FloatLiteral,
    BoolLiteral,
    CharLiteral,
    StringLiteral,
    Distinct,
    Lambda,
    ParamList,
    Param,
    StructDecl,
    StructLiteral,
    Field,
    ImportExpr,
    ComptimeExpr,
    Comment,
    Error,
}

/// What the parser did, in order.
#[derive(Debug, Clone, Copy, PartialEq, Eq, Structural)]
pub enum Event {
    StartNode { kind: NodeKind },
    AddToken,
    FinishNode,
}

/// The events of a parser; `None` holds the place of a node that a
/// marker has not completed yet.
#[derive(Debug)]
pub struct Parser {
    pub events: Vec<Option<Event>>,
}

/// `DropBomb::new`: a bomb that panics with `message` when it is dropped
/// before it is defused.
#[verifier::external_body]
fn armed(message: &'static str) -> (bomb: DropBomb) {
    DropBomb::new(message)
}

/// `DropBomb::defuse`: the bomb does nothing any more when it is dropped.
#[verifier::external_body]
fn defuse(bomb: &mut DropBomb) {
    bomb.defuse()
}

/// The place of a node that has started and whose kind is to come. A
/// marker must be completed: dropping one that is not panics.
#[derive(Debug)]
pub struct Marker {
    pos: usize,
    bomb: DropBomb,
}

/// The place of a node whose kind is known.
#[derive(Debug)]
pub struct CompletedMarker {
    pos: usize,
}

impl Marker {
    pub closed spec fn pos(&self) -> usize {
        self.pos
    }

    /// A marker for the place `pos` among the events.
    pub fn new(pos: usize) -> (marker: Marker)
        ensures
            marker.pos() == pos,
    {
        Marker { pos, bomb: armed("Markers need to be completed") }
    }

    /// Completes the node: the event at the marker's place becomes the
    /// start of a node of kind `kind`, and the node is finished at the
    /// end of the events.
    pub fn complete(self, p: &mut Parser, kind: NodeKind) -> (completed: CompletedMarker)
        requires
            self.pos() < old(p).events@.len(),
            old(p).events@[self.pos() as int] is None,
        ensures
            completed.pos() == self.pos(),
            final(p).events@ == old(p).events@.update(
                self.pos() as int,
                Some(Event::StartNode { kind }),
            ).push(Some(Event::FinishNode)),
    {
        let Marker { pos, bomb } = self;
        let mut bomb: DropBomb = bomb;
        defuse(&mut bomb);
        p.events.set(pos, Some(Event::StartNode { kind }));
        p.events.push(Some(Event::FinishNode));
        CompletedMarker { pos }
    }
}

impl CompletedMarker {
    pub closed spec fn pos(&self) -> usize {
        self.pos
    }

    /// Starts a node around the completed one: a place for its start is
    /// put before the start of the completed node.
    pub fn precede(self, p: &mut Parser) -> (marker: Marker)
        requires
            self.pos() <= old(p).events@.len(),
        ensures
            marker.pos() == self.pos(),
            final(p).events@ == old(p).events@.insert(self.pos() as int, None),
    {
        p.events.insert(self.pos, None);
        Marker::new(self.pos)
    }
}

} // verus!
