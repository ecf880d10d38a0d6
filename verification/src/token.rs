//! The kinds of tokens, and how a message names them.

use vstd::prelude::*;

verus! {

#[derive(Debug, Clone, Copy, PartialEq, Eq, Structural)]
pub enum TokenKind {
    Ident,
    As,
    If,
    Else,
    While,
    Loop,
    Distinct,
    Bool,
    Int,
    Quote,
    Escape,
    StringContents,
    Plus,
    Hyphen,
    Asterisk,
    Slash,
    Less,
    LessEquals,
    Greater,
    GreaterEquals,
    Bang,
    BangEquals,
    DoubleAnd,
    DoublePipe,
    DoubleEquals,
    Equals,
    Dot,
    Colon,
    Comma,
    Semicolon,
    Arrow,
    Caret,
    LParen,
    RParen,
    LBrack,
    RBrack,
    LBrace,
    RBrace,
    Whitespace,
    CommentContents,
    CommentLeader,
    Error,
}

/// How a message names a token of kind `kind`.
pub open spec fn kind_text(kind: TokenKind) -> Seq<char> {
    match kind {
        TokenKind::Ident => "identifier"@,
        TokenKind::As => "`as`"@,
        TokenKind::If => "`if`"@,
        TokenKind::Else => "`else`"@,
        TokenKind::While => "`while`"@,
        TokenKind::Loop => "`loop`"@,
        TokenKind::Distinct => "`distinct`"@,
        TokenKind::Bool => "boolean"@,
        TokenKind::Int => "integer"@,
        TokenKind::Quote => "`\"`"@,
        TokenKind::Escape => "escape sequence"@,
        TokenKind::StringContents => "string"@,
        TokenKind::Plus => "`+`"@,
        TokenKind::Hyphen => "`-`"@,
        TokenKind::Asterisk => "`*`"@,
        TokenKind::Slash => "`/`"@,
        TokenKind::Less => "`<`"@,
        TokenKind::LessEquals => "`<=`"@,
        TokenKind::Greater => "`>`"@,
        TokenKind::GreaterEquals => "`>=`"@,
        TokenKind::Bang => "`!`"@,
        TokenKind::BangEquals => "`!=`"@,
        TokenKind::DoubleAnd => "`&&`"@,
        TokenKind::DoublePipe => "`||`"@,
        TokenKind::DoubleEquals => "`==`"@,
        TokenKind::Equals => "`=`"@,
        TokenKind::Dot => "`.`"@,
        TokenKind::Colon => "`:`"@,
        TokenKind::Comma => "`,`"@,
        TokenKind::Semicolon => "`;`"@,
        TokenKind::Arrow => "`->`"@,
        TokenKind::Caret => "`^`"@,
        TokenKind::LParen => "`(`"@,
        TokenKind::RParen => "`)`"@,
        TokenKind::LBrack => "`[`"@,
        TokenKind::RBrack => "`]`"@,
        TokenKind::LBrace => "`{`"@,
        TokenKind::RBrace => "`}`"@,
        TokenKind::Whitespace => "whitespace"@,
        TokenKind::CommentContents => "comment"@,
        TokenKind::CommentLeader => "comment"@,
        TokenKind::Error => "an unrecognized token"@,
    }
}

/// How a message names a token of kind `kind`.
pub fn format_kind(kind: TokenKind) -> (text: &'static str)
    ensures
        text@ == kind_text(kind),
{
    match kind {
        TokenKind::Ident => "identifier",
        TokenKind::As => "`as`",
        TokenKind::If => "`if`",
        TokenKind::Else => "`else`",
        TokenKind::While => "`while`",
        TokenKind::Loop => "`loop`",
        TokenKind::Distinct => "`distinct`",
        TokenKind::Bool => "boolean",
        TokenKind::Int => "integer",
        TokenKind::Quote => "`\"`",
        TokenKind::Escape => "escape sequence",
        TokenKind::StringContents => "string",
        TokenKind::Plus => "`+`",
        TokenKind::Hyphen => "`-`",
        TokenKind::Asterisk => "`*`",
        TokenKind::Slash => "`/`",
        TokenKind::Less => "`<`",
        TokenKind::LessEquals => "`<=`",
        TokenKind::Greater => "`>`",
        TokenKind::GreaterEquals => "`>=`",
        TokenKind::Bang => "`!`",
        TokenKind::BangEquals => "`!=`",
        TokenKind::DoubleAnd => "`&&`",
        TokenKind::DoublePipe => "`||`",
        TokenKind::DoubleEquals => "`==`",
        TokenKind::Equals => "`=`",
        TokenKind::Dot => "`.`",
        TokenKind::Colon => "`:`",
        TokenKind::Comma => "`,`",
        TokenKind::Semicolon => "`;`",
        TokenKind::Arrow => "`->`",
        TokenKind::Caret => "`^`",
        TokenKind::LParen => "`(`",
        TokenKind::RParen => "`)`",
        TokenKind::LBrack => "`[`",
        TokenKind::RBrack => "`]`",
        TokenKind::LBrace => "`{`",
        TokenKind::RBrace => "`}`",
        TokenKind::Whitespace => "whitespace",
        TokenKind::CommentContents => "comment",
        TokenKind::CommentLeader => "comment",
        TokenKind::Error => "an unrecognized token",
    }
}

} // verus!
