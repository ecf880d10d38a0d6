//! Lowering of source text: a small parser builds the syntax tree, the
//! library indexes and lowers it, and the printed bodies and the
//! diagnostics are compared with what is expected.

use capy::diagnostics::{IndexingDiagnostic, IndexingDiagnosticKind};
use capy::hir::{LoweringDiagnostic, LoweringDiagnosticKind};
use capy::host::Host;
use capy::index::index;
use capy::interner::Interner;
use capy::lower::lower;
use capy::names::FileName;
use capy::ops::{BinaryOp, UnaryOp};
use capy::syntax::{
    ArrayBody, Define, Expr, ExprKind, Field, FloatValue, Ident, Lambda, Param, Root, Stmt,
    StringComponent, StringLiteral, Ty,
};
use capy::text_range::TextRange;
use capy::uid::UIDGenerator;

#[derive(Debug, Clone, PartialEq)]
enum Tok {
    Ident,
    Int,
    Float,
    Quote,
    SingleQuote,
    Escape,
    Contents,
    Punct(&'static str),
    Error,
}

#[derive(Debug, Clone)]
struct Token {
    kind: Tok,
    start: usize,
    end: usize,
}

fn lex(src: &str) -> Vec<Token> {
    let bytes = src.as_bytes();
    let mut tokens = Vec::new();
    let mut i = 0;
    while i < bytes.len() {
        let c = bytes[i];
        if c.is_ascii_whitespace() {
            i += 1;
        } else if c == b'/' && i + 1 < bytes.len() && bytes[i + 1] == b'/' {
            while i < bytes.len() && bytes[i] != b'\n' {
                i += 1;
            }
        } else if c == b'"' || c == b'\'' {
            let quote = c;
            let kind = if quote == b'"' { Tok::Quote } else { Tok::SingleQuote };
            tokens.push(Token { kind: kind.clone(), start: i, end: i + 1 });
            i += 1;
            let mut start = i;
            while i < bytes.len() && bytes[i] != quote {
                if bytes[i] == b'\\' {
                    if start < i {
                        tokens.push(Token { kind: Tok::Contents, start, end: i });
                    }
                    let escaped = src[i + 1..].chars().next().unwrap();
                    let end = i + 1 + escaped.len_utf8();
                    tokens.push(Token { kind: Tok::Escape, start: i, end });
                    i = end;
                    start = i;
                } else {
                    i += 1;
                }
            }
            if start < i {
                tokens.push(Token { kind: Tok::Contents, start, end: i });
            }
            if i < bytes.len() {
                tokens.push(Token { kind, start: i, end: i + 1 });
                i += 1;
            }
        } else if c.is_ascii_digit()
            || (c == b'.' && i + 1 < bytes.len() && bytes[i + 1].is_ascii_digit())
        {
            let start = i;
            let mut is_float = false;
            while i < bytes.len() {
                let d = bytes[i];
                if d.is_ascii_digit() || d == b'_' {
                    i += 1;
                } else if d == b'.' && i + 1 < bytes.len() && bytes[i + 1].is_ascii_digit() {
                    is_float = true;
                    i += 1;
                } else if d == b'e' || d == b'E' {
                    i += 1;
                    if i < bytes.len() && (bytes[i] == b'-' || bytes[i] == b'+') {
                        is_float = true;
                        i += 1;
                    }
                } else {
                    break;
                }
            }
            let kind = if is_float { Tok::Float } else { Tok::Int };
            tokens.push(Token { kind, start, end: i });
        } else if c.is_ascii_alphabetic() || c == b'_' {
            let start = i;
            while i < bytes.len() && (bytes[i].is_ascii_alphanumeric() || bytes[i] == b'_') {
                i += 1;
            }
            tokens.push(Token { kind: Tok::Ident, start, end: i });
        } else {
            let puncts: [&'static str; 29] = [
                "->", "<=", ">=", "==", "!=", "&&", "||", "+", "-", "*", "/", "%", "<", ">", "!",
                "=", ".", ":", ",", ";", "^", "(", ")", "[", "]", "{", "}", "|", "&",
            ];
            let mut found = None;
            for p in puncts {
                if src[i..].starts_with(p) {
                    found = Some(p);
                    break;
                }
            }
            match found {
                Some(p) => {
                    tokens.push(Token { kind: Tok::Punct(p), start: i, end: i + p.len() });
                    i += p.len();
                }
                None => {
                    let width = src[i..].chars().next().unwrap().len_utf8();
                    tokens.push(Token { kind: Tok::Error, start: i, end: i + width });
                    i += width;
                }
            }
        }
    }
    tokens
}

struct Parser<'a> {
    src: &'a str,
    tokens: Vec<Token>,
    pos: usize,
}

fn range(start: usize, end: usize) -> TextRange {
    TextRange::new(start as u32, end as u32)
}

impl<'a> Parser<'a> {
    fn peek(&self) -> Option<&Token> {
        self.tokens.get(self.pos)
    }

    fn peek_at(&self, n: usize) -> Option<&Token> {
        self.tokens.get(self.pos + n)
    }

    fn text(&self, token: &Token) -> &'a str {
        &self.src[token.start..token.end]
    }

    fn at(&self, punct: &str) -> bool {
        matches!(self.peek(), Some(Token { kind: Tok::Punct(p), .. }) if *p == punct)
    }

    fn at_word(&self, word: &str) -> bool {
        match self.peek() {
            Some(token) => token.kind == Tok::Ident && self.text(token) == word,
            None => false,
        }
    }

    fn bump(&mut self) -> Token {
        let token = self.tokens[self.pos].clone();
        self.pos += 1;
        token
    }

    fn eat(&mut self, punct: &str) -> Option<Token> {
        if self.at(punct) {
            Some(self.bump())
        } else {
            None
        }
    }

    fn last_end(&self) -> usize {
        if self.pos == 0 {
            0
        } else {
            self.tokens[self.pos - 1].end
        }
    }

    fn ident(&mut self) -> Option<Ident> {
        match self.peek() {
            Some(token) if token.kind == Tok::Ident => {
                let token = self.bump();
                Some(Ident {
                    text: self.text(&token).to_string(),
                    range: range(token.start, token.end),
                })
            }
            _ => None,
        }
    }

    fn root(&mut self) -> Root {
        let mut defs = Vec::new();
        while self.peek().is_some() {
            let before = self.pos;
            defs.push(self.define());
            self.eat(";");
            if self.pos == before {
                self.bump();
            }
        }
        Root { defs }
    }

    /// `name :: value`, `name := value`, `name : ty : value`, `name : ty = value`
    fn define(&mut self) -> Define {
        let start = self.peek().map(|t| t.start).unwrap_or(0);
        let name = self.ident();
        let mut mutable = false;
        let mut ty = None;
        self.eat(":");
        if self.eat(":").is_some() {
        } else if self.eat("=").is_some() {
            mutable = true;
        } else {
            ty = Some(Ty { expr: self.ty_expr().map(Box::new) });
            if self.eat("=").is_some() {
                mutable = true;
            } else {
                self.eat(":");
            }
        }
        let value = self.expr().map(Box::new);
        Define { mutable, name, ty, value, range: range(start, self.last_end()) }
    }

    fn is_define(&self) -> bool {
        matches!(self.peek(), Some(Token { kind: Tok::Ident, .. }))
            && matches!(self.peek_at(1), Some(Token { kind: Tok::Punct(":"), .. }))
    }

    fn ty(&mut self) -> Option<Ty> {
        Some(Ty { expr: self.ty_expr().map(Box::new) })
    }

    /// An expression in the place of a type: it does not take a block
    /// or a call after it.
    fn ty_expr(&mut self) -> Option<Expr> {
        let start = self.peek()?.start;
        if self.eat("^").is_some() {
            let mutable = if self.at_word("mut") {
                self.bump();
                true
            } else {
                false
            };
            let expr = self.ty_expr().map(Box::new);
            return Some(Expr {
                kind: ExprKind::Ref { mutable, expr },
                range: range(start, self.last_end()),
            });
        }
        if self.at("[") {
            return Some(self.array(false));
        }
        if self.at_word("distinct") {
            self.bump();
            let ty = self.ty();
            return Some(Expr {
                kind: ExprKind::Distinct { ty },
                range: range(start, self.last_end()),
            });
        }
        if self.at_word("struct") {
            return Some(self.struct_decl());
        }
        let name = self.ident()?;
        let mut expr = Expr { range: name.range, kind: ExprKind::VarRef { name: Some(name) } };
        while self.at(".") {
            self.bump();
            let field = self.ident();
            expr = Expr {
                kind: ExprKind::Path { previous: Some(Box::new(expr)), field },
                range: range(start, self.last_end()),
            };
        }
        Some(expr)
    }

    fn expr(&mut self) -> Option<Expr> {
        self.binary(0)
    }

    fn binary_op(&self) -> Option<(BinaryOp, u8)> {
        let p = match self.peek() {
            Some(Token { kind: Tok::Punct(p), .. }) => *p,
            _ => return None,
        };
        Some(match p {
            "||" => (BinaryOp::Or, 1),
            "&&" => (BinaryOp::And, 2),
            "==" => (BinaryOp::Eq, 3),
            "!=" => (BinaryOp::Ne, 3),
            "<" => (BinaryOp::Lt, 4),
            ">" => (BinaryOp::Gt, 4),
            "<=" => (BinaryOp::Le, 4),
            ">=" => (BinaryOp::Ge, 4),
            "+" => (BinaryOp::Add, 5),
            "-" => (BinaryOp::Sub, 5),
            "*" => (BinaryOp::Mul, 6),
            "/" => (BinaryOp::Div, 6),
            "%" => (BinaryOp::Mod, 6),
            _ => return None,
        })
    }

    fn binary(&mut self, min: u8) -> Option<Expr> {
        let start = self.peek()?.start;
        let mut lhs = self.unary()?;
        loop {
            let (op, power) = match self.binary_op() {
                Some(found) if found.1 > min => found,
                _ => break,
            };
            self.bump();
            let rhs = self.binary(power);
            lhs = Expr {
                kind: ExprKind::Binary {
                    lhs: Some(Box::new(lhs)),
                    rhs: rhs.map(Box::new),
                    op: Some(op),
                },
                range: range(start, self.last_end()),
            };
        }
        Some(lhs)
    }

    fn unary(&mut self) -> Option<Expr> {
        let start = self.peek()?.start;
        let op = if self.at("-") {
            Some(UnaryOp::Neg)
        } else if self.at("+") {
            Some(UnaryOp::Pos)
        } else if self.at("!") {
            Some(UnaryOp::Not)
        } else {
            None
        };
        if let Some(op) = op {
            self.bump();
            let expr = self.unary().map(Box::new);
            return Some(Expr {
                kind: ExprKind::Unary { expr, op: Some(op) },
                range: range(start, self.last_end()),
            });
        }
        if self.eat("^").is_some() {
            let mutable = if self.at_word("mut") {
                self.bump();
                true
            } else {
                false
            };
            let expr = self.unary().map(Box::new);
            return Some(Expr {
                kind: ExprKind::Ref { mutable, expr },
                range: range(start, self.last_end()),
            });
        }
        self.postfix()
    }

    fn postfix(&mut self) -> Option<Expr> {
        let start = self.peek()?.start;
        let mut expr = self.primary()?;
        loop {
            if self.at("(") {
                self.bump();
                let mut args = Vec::new();
                while self.peek().is_some() && !self.at(")") {
                    args.push(self.expr().map(Box::new));
                    if self.eat(",").is_none() {
                        break;
                    }
                }
                self.eat(")");
                expr = Expr {
                    kind: ExprKind::Call { callee: Some(Box::new(expr)), args: Some(args) },
                    range: range(start, self.last_end()),
                };
            } else if self.at(".") {
                self.bump();
                let field = self.ident();
                expr = Expr {
                    kind: ExprKind::Path { previous: Some(Box::new(expr)), field },
                    range: range(start, self.last_end()),
                };
            } else if self.at("[") {
                self.bump();
                let index = self.expr().map(Box::new);
                self.eat("]");
                expr = Expr {
                    kind: ExprKind::Index { array: Some(Box::new(expr)), index },
                    range: range(start, self.last_end()),
                };
            } else if self.at("^") {
                self.bump();
                expr = Expr {
                    kind: ExprKind::Deref { pointer: Some(Box::new(expr)) },
                    range: range(start, self.last_end()),
                };
            } else if self.at_word("as") {
                self.bump();
                let ty = self.ty();
                expr = Expr {
                    kind: ExprKind::Cast { expr: Some(Box::new(expr)), ty },
                    range: range(start, self.last_end()),
                };
            } else {
                break;
            }
        }
        Some(expr)
    }

    fn primary(&mut self) -> Option<Expr> {
        let token = self.peek()?.clone();
        let start = token.start;
        match token.kind {
            Tok::Int => {
                self.bump();
                Some(Expr {
                    kind: ExprKind::IntLiteral { text: Some(self.text(&token).to_string()) },
                    range: range(token.start, token.end),
                })
            }
            Tok::Float => {
                self.bump();
                let number: f64 = self.text(&token).replace('_', "").parse().unwrap();
                Some(Expr {
                    kind: ExprKind::FloatLiteral {
                        value: FloatValue { bits: number.to_bits(), shown: format!("{}", number) },
                    },
                    range: range(token.start, token.end),
                })
            }
            Tok::Quote => {
                let literal = self.string_literal(Tok::Quote);
                Some(Expr { range: literal.range, kind: ExprKind::StringLiteral(literal) })
            }
            Tok::SingleQuote => {
                let literal = self.string_literal(Tok::SingleQuote);
                Some(Expr {
                    range: literal.range,
                    kind: ExprKind::CharLiteral { components: literal.components },
                })
            }
            Tok::Punct("(") => Some(self.lambda()),
            Tok::Punct("{") => Some(self.block()),
            Tok::Punct("[") => Some(self.array(true)),
            Tok::Ident => {
                let word = self.text(&token);
                match word {
                    "true" | "false" => {
                        self.bump();
                        Some(Expr {
                            kind: ExprKind::BoolLiteral { value: word == "true" },
                            range: range(token.start, token.end),
                        })
                    }
                    "if" => Some(self.if_expr()),
                    "while" => {
                        self.bump();
                        let condition = self.expr().map(Box::new);
                        let body = Some(Box::new(self.block()));
                        Some(Expr {
                            kind: ExprKind::While { condition, body },
                            range: range(start, self.last_end()),
                        })
                    }
                    "loop" => {
                        self.bump();
                        let body = Some(Box::new(self.block()));
                        Some(Expr {
                            kind: ExprKind::While { condition: None, body },
                            range: range(start, self.last_end()),
                        })
                    }
                    "comptime" => {
                        self.bump();
                        let body = Some(Box::new(self.block()));
                        Some(Expr {
                            kind: ExprKind::Comptime { body },
                            range: range(start, self.last_end()),
                        })
                    }
                    "import" => {
                        self.bump();
                        let file = if matches!(self.peek(), Some(Token { kind: Tok::Quote, .. })) {
                            Some(self.string_literal(Tok::Quote))
                        } else {
                            None
                        };
                        Some(Expr {
                            kind: ExprKind::Import { file },
                            range: range(start, self.last_end()),
                        })
                    }
                    "distinct" => {
                        self.bump();
                        let ty = self.ty();
                        Some(Expr {
                            kind: ExprKind::Distinct { ty },
                            range: range(start, self.last_end()),
                        })
                    }
                    "struct" => Some(self.struct_decl()),
                    _ => {
                        let name = self.ident();
                        let var = Expr {
                            kind: ExprKind::VarRef { name },
                            range: range(token.start, token.end),
                        };
                        // `Name { field: value }` is a struct literal
                        if self.at("{")
                            && matches!(self.peek_at(1), Some(Token { kind: Tok::Ident, .. }))
                            && matches!(
                                self.peek_at(2),
                                Some(Token { kind: Tok::Punct(":"), .. })
                            )
                            && !matches!(
                                self.peek_at(3),
                                Some(Token { kind: Tok::Punct(":"), .. })
                                    | Some(Token { kind: Tok::Punct("="), .. })
                            )
                        {
                            return Some(self.struct_literal(var));
                        }
                        Some(var)
                    }
                }
            }
            _ => None,
        }
    }

    fn string_literal(&mut self, quote: Tok) -> StringLiteral {
        let open = self.bump();
        let mut components = Vec::new();
        loop {
            match self.peek().map(|t| t.kind.clone()) {
                Some(Tok::Contents) => {
                    let token = self.bump();
                    components
                        .push(StringComponent::Contents { text: self.text(&token).to_string() });
                }
                Some(Tok::Escape) => {
                    let token = self.bump();
                    let escaped = self.text(&token).chars().nth(1).unwrap();
                    components.push(StringComponent::Escape {
                        escaped,
                        range: range(token.start, token.end),
                    });
                }
                Some(kind) if kind == quote => {
                    self.bump();
                    break;
                }
                _ => break,
            }
        }
        StringLiteral { components, range: range(open.start, self.last_end()) }
    }

    fn lambda(&mut self) -> Expr {
        let open = self.bump();
        let mut params = Vec::new();
        while self.peek().is_some() && !self.at(")") {
            let start = self.peek().unwrap().start;
            let name = self.ident();
            let ty = if self.eat(":").is_some() { self.ty() } else { None };
            params.push(Param { name, ty, range: range(start, self.last_end()) });
            if self.eat(",").is_none() {
                break;
            }
        }
        self.eat(")");
        let params_range = range(open.start, self.last_end());
        let return_ty = if self.eat("->").is_some() { self.ty() } else { None };
        let mut extern_range = None;
        let mut body = None;
        if self.at_word("extern") {
            let token = self.bump();
            extern_range = Some(range(token.start, token.end));
        } else if self.at("{") {
            body = Some(Box::new(self.block()));
        }
        Expr {
            kind: ExprKind::Lambda(Lambda { params, params_range, return_ty, extern_range, body }),
            range: range(open.start, self.last_end()),
        }
    }

    fn block(&mut self) -> Expr {
        let open = self.bump();
        let mut stmts = Vec::new();
        let mut tail_expr = None;
        while self.peek().is_some() && !self.at("}") {
            let start = self.peek().unwrap().start;
            if self.is_define() {
                let def = self.define();
                self.eat(";");
                stmts.push(Stmt::Define(def));
                continue;
            }
            let before = self.pos;
            let expr = self.expr();
            if self.eat("=").is_some() {
                let value = self.expr().map(Box::new);
                self.eat(";");
                stmts.push(Stmt::Assign {
                    source: expr.map(Box::new),
                    value,
                    range: range(start, self.last_end()),
                });
            } else if self.eat(";").is_some() {
                stmts.push(Stmt::Expr { expr: expr.map(Box::new) });
            } else if self.at("}") {
                tail_expr = expr.map(Box::new);
            } else {
                if self.pos == before {
                    self.bump();
                }
                stmts.push(Stmt::Expr { expr: expr.map(Box::new) });
            }
        }
        self.eat("}");
        Expr {
            kind: ExprKind::Block { stmts, tail_expr },
            range: range(open.start, self.last_end()),
        }
    }

    fn if_expr(&mut self) -> Expr {
        let start = self.bump().start;
        let condition = self.expr().map(Box::new);
        let body = if self.at("{") { Some(Box::new(self.block())) } else { None };
        let else_branch = if self.at_word("else") {
            self.bump();
            if self.at_word("if") {
                Some(Some(Box::new(self.if_expr())))
            } else if self.at("{") {
                Some(Some(Box::new(self.block())))
            } else {
                Some(None)
            }
        } else {
            None
        };
        Expr {
            kind: ExprKind::If { condition, body, else_branch },
            range: range(start, self.last_end()),
        }
    }

    fn array(&mut self, with_body: bool) -> Expr {
        let open = self.bump();
        let size = Some(if self.at("]") { None } else { self.expr().map(Box::new) });
        self.eat("]");
        let ty = self.ty();
        let body = if with_body && self.at("{") {
            let brace = self.bump();
            let mut items = Vec::new();
            while self.peek().is_some() && !self.at("}") {
                items.push(self.expr().map(Box::new));
                if self.eat(",").is_none() {
                    break;
                }
            }
            self.eat("}");
            Some(ArrayBody { items, range: range(brace.start, self.last_end()) })
        } else {
            None
        };
        Expr {
            kind: ExprKind::Array { size, ty, body },
            range: range(open.start, self.last_end()),
        }
    }

    fn struct_decl(&mut self) -> Expr {
        let start = self.bump().start;
        let mut fields = Vec::new();
        if self.eat("{").is_some() {
            while self.peek().is_some() && !self.at("}") {
                let name = self.ident();
                self.eat(":");
                let value = self.ty_expr().map(Box::new);
                fields.push(Field { name, value });
                if self.eat(",").is_none() {
                    break;
                }
            }
            self.eat("}");
        }
        Expr { kind: ExprKind::StructDecl { fields }, range: range(start, self.last_end()) }
    }

    fn struct_literal(&mut self, ty: Expr) -> Expr {
        let start = ty.range.start as usize;
        self.bump();
        let mut fields = Vec::new();
        while self.peek().is_some() && !self.at("}") {
            let name = self.ident();
            self.eat(":");
            let value = self.expr().map(Box::new);
            fields.push(Field { name, value });
            if self.eat(",").is_none() {
                break;
            }
        }
        self.eat("}");
        Expr {
            kind: ExprKind::StructLiteral { ty: Some(Ty { expr: Some(Box::new(ty)) }), fields },
            range: range(start, self.last_end()),
        }
    }
}

fn parse(src: &str) -> Root {
    Parser { src, tokens: lex(src), pos: 0 }.root()
}

/// Removes the indentation that the lines of `text` share, and the
/// empty first line.
fn trim_indent(text: &str) -> String {
    let text = text.strip_prefix('\n').unwrap_or(text);
    let indent = text
        .lines()
        .filter(|line| !line.trim().is_empty())
        .map(|line| line.len() - line.trim_start().len())
        .min()
        .unwrap_or(0);
    let mut out = String::new();
    for line in text.split_inclusive('\n') {
        if line.len() <= indent {
            out.push_str(line.trim_start_matches(' '));
        } else {
            out.push_str(&line[indent..]);
        }
    }
    out
}

fn fake_host() -> Host {
    Host { separator: std::path::MAIN_SEPARATOR, disk: None }
}

fn check(
    input: &str,
    expect: &str,
    expected_diagnostics: impl Fn(&mut Interner) -> Vec<(LoweringDiagnosticKind, std::ops::Range<u32>)>,
) {
    let mut interner = Interner::default();
    let mut uid_gen = UIDGenerator::default();
    // the names that the diagnostics mention are interned by lowering,
    // so that asking for their keys afterwards changes nothing
    let root = parse(input);
    let (index, _) = index(&root, &mut interner);
    let (bodies, actual_diagnostics) =
        lower(&root, "main.capy", &index, &mut uid_gen, &mut interner, &fake_host());
    let module = FileName(interner.intern("main.capy"));
    assert_eq!(trim_indent(expect), bodies.debug(module, "", &interner, false));
    let expected_diagnostics: Vec<LoweringDiagnostic> = expected_diagnostics(&mut interner)
        .into_iter()
        .map(|(kind, range)| LoweringDiagnostic {
            kind,
            range: TextRange::new(range.start, range.end),
        })
        .collect();
    assert_eq!(expected_diagnostics, actual_diagnostics);
}

#[test]
fn empty() {
    check("", "", |_| vec![])
}

#[test]
fn function() {
    check(
        r#"
                foo :: () {
                    
                }
            "#,
        r#"
                main::foo :: () {};
            "#,
        |_| vec![],
    )
}

#[test]
fn binary() {
    check(
        r#"
                foo :: () {
                    1 + 1;
                }
            "#,
        r#"
                main::foo :: () {
                    1 + 1;
                };
            "#,
        |_| vec![],
    )
}

#[test]
fn global() {
    check(
        r#"
                foo :: 5;

                bar :: () {
                    foo;
                }
            "#,
        r#"
                main::foo :: 5;
                main::bar :: () {
                    foo;
                };
            "#,
        |_| vec![],
    )
}

#[test]
fn local_var() {
    check(
        r#"
                foo :: () {
                    x := 5;

                    x;
                }
            "#,
        r#"
                main::foo :: () {
                    l0 := 5;
                    l0;
                };
            "#,
        |_| vec![],
    )
}

#[test]
fn param() {
    check(
        r#"
                foo :: (x: i32) {
                    x;
                }
            "#,
        r#"
                main::foo :: (p0: i32) {
                    p0;
                };
            "#,
        |_| vec![],
    )
}

#[test]
fn import() {
    check(
        r#"
                other_file :: import "other_file.capy";

                foo :: () {
                    other_file.global;
                }
            "#,
        r#"
                main::other_file :: import "other_file.capy";
                main::foo :: () {
                    other_file.global;
                };
            "#,
        |_| vec![],
    )
}

#[test]
fn import_non_dot_capy() {
    check(
        r#"
                foo :: () {
                    other_file :: import "other_file.cap";

                    other_file.global;
                }
            "#,
        r#"
                main::foo :: () {
                    l0 := <missing>;
                    l0.global;
                };
            "#,
        |_| vec![(LoweringDiagnosticKind::ImportMustEndInDotCapy, 70..86)],
    )
}

#[test]
fn int_literal() {
    check(
        r#"
                foo :: () {
                    num := 18446744073709551615;
                }
            "#,
        r#"
                main::foo :: () {
                    l0 := 18446744073709551615;
                };
            "#,
        |_| vec![],
    )
}

#[test]
fn int_literal_with_e_lower() {
    check(
        r#"
                foo :: () {
                    // 123 * 10^9
                    num := 1_23_e9_;
                }
            "#,
        r#"
                main::foo :: () {
                    l0 := 123000000000;
                };
            "#,
        |_| vec![],
    )
}

#[test]
fn int_literal_with_e_upper() {
    check(
        r#"
                foo :: () {
                    // 456... * 10^(-10)
                    num := 4_5_6_E1_0_;
                }
            "#,
        r#"
                main::foo :: () {
                    l0 := 4560000000000;
                };
            "#,
        |_| vec![],
    )
}

#[test]
fn int_literal_with_e_very_large() {
    check(
        r#"
                foo :: () {
                    num := 1e20;
                }
            "#,
        r#"
                main::foo :: () {
                    l0 := <missing>;
                };
            "#,
        |_| vec![(LoweringDiagnosticKind::OutOfRangeIntLiteral, 56..60)],
    )
}

#[test]
fn out_of_range_int_literal() {
    check(
        r#"
                foo :: () {
                    num := 18446744073709551616;
                }
            "#,
        r#"
                main::foo :: () {
                    l0 := <missing>;
                };
            "#,
        |_| vec![(LoweringDiagnosticKind::OutOfRangeIntLiteral, 56..76)],
    )
}

#[test]
fn float_literal() {
    check(
        r#"
                foo :: () {
                    num := .123;
                }
            "#,
        r#"
                main::foo :: () {
                    l0 := 0.123;
                };
            "#,
        |_| vec![],
    )
}

#[test]
fn float_literal_with_underscores() {
    check(
        r#"
                foo :: () {
                    num := 1_000_000.000_00000E-3_;
                }
            "#,
        r#"
                main::foo :: () {
                    l0 := 1000;
                };
            "#,
        |_| vec![],
    )
}

#[test]
fn string_literal() {
    check(
        r#"
                foo :: () {
                    crab := "🦀";
                }
            "#,
        r#"
                main::foo :: () {
                    l0 := "🦀";
                };
            "#,
        |_| vec![],
    )
}

#[test]
fn string_literal_with_escapes() {
    check(
        r#"
                foo :: () {
                    escapes := "\0\a\b\n\f\r\t\v\e\'\"\\";
                }
            "#,
        r#"
                main::foo :: () {
                    l0 := "\0\u{7}\u{8}\n\u{c}\r\t\u{b}\u{1b}'\"\\";
                };
            "#,
        |_| vec![],
    )
}

#[test]
fn string_literal_with_invalid_escapes() {
    check(
        r#"
                foo :: () {
                    crab := "a\jb\🦀c";
                }
            "#,
        r#"
                main::foo :: () {
                    l0 := "abc";
                };
            "#,
        |_| {
            vec![
                (LoweringDiagnosticKind::InvalidEscape, 59..61),
                (LoweringDiagnosticKind::InvalidEscape, 62..67),
            ]
        },
    )
}

#[test]
fn char_literal() {
    check(
        r#"
                foo :: () {
                    ch := 'a';
                }
            "#,
        r#"
                main::foo :: () {
                    l0 := 'a';
                };
            "#,
        |_| vec![],
    )
}

#[test]
fn char_literal_empty() {
    check(
        r#"
                foo :: () {
                    ch := '';
                }
            "#,
        r"
                main::foo :: () {
                    l0 := '\0';
                };
            ",
        |_| vec![(LoweringDiagnosticKind::EmptyCharLiteral, 55..57)],
    )
}

#[test]
fn char_literal_multiple_chars() {
    check(
        r#"
                foo :: () {
                    ch := 'Hello, World!';
                }
            "#,
        r"
                main::foo :: () {
                    l0 := '\0';
                };
            ",
        |_| vec![(LoweringDiagnosticKind::TooManyCharsInCharLiteral, 55..70)],
    )
}

#[test]
fn char_literal_out_of_range() {
    check(
        r#"
                foo :: () {
                    crab := '🦀';
                }
            "#,
        r"
                main::foo :: () {
                    l0 := '\0';
                };
            ",
        |_| vec![(LoweringDiagnosticKind::NonU8CharLiteral, 57..63)],
    )
}

#[test]
fn char_literal_with_escape() {
    check(
        r#"
                foo :: () {
                    null := '\0';
                    bell := '\a';
                    backspace := '\b';
                    linefeed := '\n';
                    formfeed := '\f';
                    carraige_return := '\r';
                    tab := '\t';
                    vertical_tab := '\v';
                    escape := '\e';
                    single_quote := '\'';
                    double_quote := '\"';
                    backslash := '\\';
                }
            "#,
        r#"
                main::foo :: () {
                    l0 := '\0';
                    l1 := '\u{7}';
                    l2 := '\u{8}';
                    l3 := '\n';
                    l4 := '\u{c}';
                    l5 := '\r';
                    l6 := '\t';
                    l7 := '\u{b}';
                    l8 := '\u{1b}';
                    l9 := '\'';
                    l10 := '"';
                    l11 := '\\';
                };
            "#,
        |_| vec![],
    )
}

#[test]
fn char_literal_with_invalid_escape() {
    check(
        r"
                foo :: () {
                    crab := '\🦀';
                }
            ",
        r"
                main::foo :: () {
                    l0 := '\0';
                };
            ",
        |_| vec![(LoweringDiagnosticKind::InvalidEscape, 58..63)],
    )
}

#[test]
fn nested_binary_expr() {
    check(
        r"
                foo :: () -> i32 {
                    1 + 2 * 3 - 4 / 5
                }
            ",
        r#"
                main::foo :: () -> i32 { 1 + 2 * 3 - 4 / 5 };
            "#,
        |_| vec![],
    )
}

#[test]
fn multiple_local_defs() {
    check(
        r#"
                foo :: () {
                    a := 1;
                    b := 2;
                    c := 3;
                    d := 4;
                }
            "#,
        r#"
                main::foo :: () {
                    l0 := 1;
                    l1 := 2;
                    l2 := 3;
                    l3 := 4;
                };
            "#,
        |_| vec![],
    )
}

#[test]
fn multiple_functions() {
    check(
        r#"
                foo :: () {}
                bar :: () {}
                baz :: () {}
                qux :: () {}
            "#,
        r#"
                main::foo :: () {};
                main::bar :: () {};
                main::baz :: () {};
                main::qux :: () {};
            "#,
        |_| vec![],
    )
}

#[test]
fn call_other_function() {
    check(
        r#"
                foo :: () {
                    bar()
                }

                bar :: () {
                    foo()
                }
            "#,
        r#"
                main::foo :: () { bar() };
                main::bar :: () { foo() };
            "#,
        |_| vec![],
    )
}

#[test]
fn call_non_existent_function() {
    check(
        r#"
                foo :: () {
                    bar()
                }
            "#,
        r#"
                main::foo :: () { <missing>() };
            "#,
        |i| vec![(LoweringDiagnosticKind::UndefinedRef { name: i.intern("bar") }, 49..52)],
    )
}

#[test]
fn recursion() {
    check(
        r#"
                foo :: () {
                    foo();
                }
            "#,
        r#"
                main::foo :: () {
                    foo();
                };
            "#,
        |_| vec![],
    )
}

#[test]
fn lambda() {
    check(
        r#"
                foo :: () {
                    bar := () {};
                }
            "#,
        r#"
                main::foo :: () {
                    l0 := () {};
                };
            "#,
        |_| vec![],
    )
}

#[test]
fn lambda_dont_capture_scope() {
    check(
        r#"
                foo :: (x: i32) {
                    y := 5;

                    bar := () -> i32 {
                        x + y
                    };
                }
            "#,
        r#"
                main::foo :: (p0: i32) {
                    l0 := 5;
                    l1 := () -> i32 { <missing> + <missing> };
                };
            "#,
        |i| {
            vec![
                (LoweringDiagnosticKind::UndefinedRef { name: i.intern("x") }, 127..128),
                (LoweringDiagnosticKind::UndefinedRef { name: i.intern("y") }, 131..132),
            ]
        },
    )
}

#[test]
fn call_lambda() {
    check(
        r#"
                foo :: () -> i32 {
                    {
                        (x: i32, y: i32) -> i32 {
                            x + y
                        }
                    } (1, 2)
                }
            "#,
        r#"
                main::foo :: () -> i32 { { (p0: i32, p1: i32) -> i32 { p0 + p1 } }(1, 2) };
            "#,
        |_| vec![],
    )
}

#[test]
fn extern_lambda() {
    check(
        r#"
                main :: () -> i32 {
                    puts := (s: string) extern;
                }
            "#,
        r#"
                main::main :: () -> i32 {
                    l0 := (p0: string) extern;
                };
            "#,
        |_| vec![(LoweringDiagnosticKind::NonGlobalExtern, 77..83)],
    )
}

#[test]
fn extern_function() {
    check(
        r#"
                puts :: (s: string) -> i32 extern;
            "#,
        r#"
                main::puts :: (p0: string) -> i32 extern;
            "#,
        |_| vec![],
    )
}

#[test]
fn scoped_local() {
    check(
        r#"
                foo :: () -> i32 {
                    {
                        a := 5;
                    }

                    a
                }
            "#,
        r#"
                main::foo :: () -> i32 {
                    {
                        l0 := 5;
                    };
                    <missing>
                };
            "#,
        |i| vec![(LoweringDiagnosticKind::UndefinedRef { name: i.intern("a") }, 133..134)],
    )
}

#[test]
fn locals_take_precedence_over_globals() {
    check(
        r#"
                bar :: () -> i32 { 0 };

                foo :: () -> i32 {
                    bar := 25;

                    bar
                }
            "#,
        r#"
                main::bar :: () -> i32 { 0 };
                main::foo :: () -> i32 {
                    l0 := 25;
                    l0
                };
            "#,
        |_| vec![],
    )
}

#[test]
fn locals_take_precedence_over_params() {
    check(
        r#"
                main :: () -> i32 {
                    foo := {
                        bar := {
                            baz := 9;
                            baz * 10
                        };
                        bar - 1
                    };
                    foo + 3
                }
            "#,
        r#"
                main::main :: () -> i32 {
                    l2 := {
                        l1 := {
                            l0 := 9;
                            l0 * 10
                        };
                        l1 - 1
                    };
                    l2 + 3
                };
            "#,
        |_| vec![],
    )
}

#[test]
fn array_with_inferred_size() {
    check(
        r#"
                main :: () -> i32 {
                    my_array := [] i32 { 4, 8, 15, 16, 23, 42 };
                }
            "#,
        r#"
                main::main :: () -> i32 {
                    l0 := []i32{ 4, 8, 15, 16, 23, 42 };
                };
            "#,
        |_| vec![],
    )
}

#[test]
fn array_with_specific_size() {
    check(
        r#"
                main :: () -> i32 {
                    my_array := [6] i32 { 4, 8, 15, 16, 23, 42 };
                }
            "#,
        r#"
                main::main :: () -> i32 {
                    l0 := [6]i32{ 4, 8, 15, 16, 23, 42 };
                };
            "#,
        |_| vec![],
    )
}

#[test]
fn array_with_incorrect_size() {
    check(
        r#"
                main :: () -> i32 {
                    my_array := [3] i32 { 4, 8, 15, 16, 23, 42 };
                }
            "#,
        r#"
                main::main :: () -> i32 {
                    l0 := [3]i32{ 4, 8, 15, 16, 23, 42 };
                };
            "#,
        |_| {
            vec![(
                LoweringDiagnosticKind::ArraySizeMismatch { found: 6, expected: 3 },
                77..101,
            )]
        },
    )
}

#[test]
fn array_with_non_const_size() {
    check(
        r#"
                main :: () -> i32 {
                    size := 6;

                    my_array := [size] i32 { 4, 8, 15, 16, 23, 42 };
                }
            "#,
        r#"
                main::main :: () -> i32 {
                    l0 := 6;
                    l1 := []i32{ 4, 8, 15, 16, 23, 42 };
                };
            "#,
        |_| vec![(LoweringDiagnosticKind::ArraySizeNotConst, 102..106)],
    )
}

#[test]
fn body_comptime() {
    check(
        r#"
                main :: () -> i32 {
                    num :: comptime {
                        1 + 1
                    };
                }
            "#,
        r#"
                main::main :: () -> i32 {
                    l0 := comptime { 1 + 1 };
                };
            "#,
        |_| vec![],
    )
}

#[test]
fn comptime_dont_capture_scope() {
    check(
        r#"
                main :: (x: i32) -> i32 {
                    y := 5;

                    num :: comptime {
                        x + y
                    };
                }
            "#,
        r#"
                main::main :: (p0: i32) -> i32 {
                    l0 := 5;
                    l1 := comptime { <missing> + <missing> };
                };
            "#,
        |i| {
            vec![
                (LoweringDiagnosticKind::UndefinedRef { name: i.intern("x") }, 134..135),
                (LoweringDiagnosticKind::UndefinedRef { name: i.intern("y") }, 138..139),
            ]
        },
    )
}

#[test]
fn comptime_globals() {
    check(
        r#"
                foo :: 5;

                main :: () -> i32 {
                    num :: comptime {
                        foo * 2
                    };
                }
            "#,
        r#"
                main::foo :: 5;
                main::main :: () -> i32 {
                    l0 := comptime { foo * 2 };
                };
            "#,
        |_| vec![],
    )
}

#[test]
fn function_with_undefined_types() {
    check(
        r#"
                foo :: (x: bar, y: baz) -> qux.quux {
    
                }
            "#,
        r#"
                main::foo :: (p0: <missing>, p1: <missing>) -> <missing>.quux {};
            "#,
        |i| {
            vec![
                (LoweringDiagnosticKind::UndefinedRef { name: i.intern("bar") }, 28..31),
                (LoweringDiagnosticKind::UndefinedRef { name: i.intern("baz") }, 36..39),
                (LoweringDiagnosticKind::UndefinedRef { name: i.intern("qux") }, 44..47),
            ]
        },
    )
}

#[test]
fn function_with_unnamed_params() {
    check(
        r#"
                foo :: (: i32, y: bool) -> i8 {
                    if y {
                        0
                    } else {
                        1
                    }
                }
            "#,
        r#"
                main::foo :: (p0: i32, p1: bool) -> i8 { if p1 { 0 } else { 1 } };
            "#,
        |_| vec![],
    )
}

#[test]
fn function_with_untyped_params() {
    check(
        r#"
                foo :: (x, y) -> i8 {
                    if y {
                        0
                    } else {
                        1
                    }
                }
            "#,
        r#"
                main::foo :: (p0: <missing>, p1: <missing>) -> i8 { if p1 { 0 } else { 1 } };
            "#,
        |_| vec![],
    )
}

fn lower_source(
    input: &str,
    host: &Host,
    file_name: &str,
) -> (capy::body::Bodies, Vec<LoweringDiagnostic>, Interner, UIDGenerator) {
    let mut interner = Interner::default();
    let mut uid_gen = UIDGenerator::default();
    let root = parse(input);
    let (index, _) = index(&root, &mut interner);
    let (bodies, diagnostics) = lower(&root, file_name, &index, &mut uid_gen, &mut interner, host);
    (bodies, diagnostics, interner, uid_gen)
}

fn printed(input: &str) -> (String, Vec<LoweringDiagnostic>) {
    let (bodies, diagnostics, mut interner, _) = lower_source(input, &fake_host(), "main.capy");
    let module = FileName(interner.intern("main.capy"));
    (bodies.debug(module, "", &interner, false), diagnostics)
}

#[test]
fn lowering_is_deterministic() {
    let source = r#"
        point :: struct { x: i32, y: i32 };
        origin :: () -> point { point { x: 0, y: 0 } };
        main :: () -> i32 {
            id :: distinct i32;
            p := origin();
            text := "a\qb";
            p.x + 1e30
        }
    "#;
    let (first, first_diagnostics) = printed(source);
    let (second, second_diagnostics) = printed(source);
    assert_eq!(first, second);
    assert_eq!(first_diagnostics, second_diagnostics);
    assert_eq!(first_diagnostics.len(), 2);
}

#[test]
fn every_named_definition_gets_a_body() {
    let source = r#"
        broken :: () -> i32 { x := 1e20; undefined_name + 'too long' }
        also_broken :: import "nothing.txt";
        fine :: 5;
    "#;
    let (bodies, diagnostics, mut interner, _) = lower_source(source, &fake_host(), "main.capy");
    assert_eq!(diagnostics.len(), 4);
    for name in ["broken", "also_broken", "fine"] {
        let name = capy::names::Name(interner.intern(name));
        assert!(bodies.has_global(name));
        let body = bodies.global_body(name);
        assert!(bodies.range_for_expr(body).start < bodies.range_for_expr(body).end);
    }
    assert!(!bodies.has_global(capy::names::Name(interner.intern("absent"))));
}

#[test]
fn a_second_definition_of_a_name_is_ignored() {
    let (text, diagnostics) = printed("foo :: 1; foo :: 2;");
    assert_eq!(text, "main::foo :: 1;\n");
    assert!(diagnostics.is_empty());
}

#[test]
fn ranges_enclose_the_ranges_of_sub_expressions() {
    let source = "main :: () -> i32 { 2 + 3 * 4 }";
    let (bodies, _, mut interner, _) = lower_source(source, &fake_host(), "main.capy");
    let main = bodies.global_body(capy::names::Name(interner.intern("main")));
    assert_eq!(bodies.range_for_expr(main), TextRange::new(8, 31));
    let lambda = match bodies.expr(main) {
        capy::hir::Expr::Lambda(id) => bodies.lambda(*id),
        other => panic!("not a lambda: {:?}", other),
    };
    let block = bodies.range_for_expr(lambda.body);
    assert_eq!(block, TextRange::new(18, 31));
    assert!(bodies.range_for_expr(main).contains_range(block));
    let tail = match bodies.expr(lambda.body) {
        capy::hir::Expr::Block { tail_expr: Some(tail), .. } => *tail,
        other => panic!("not a block with a tail: {:?}", other),
    };
    assert_eq!(bodies.range_for_expr(tail), TextRange::new(20, 29));
    match bodies.expr(tail) {
        capy::hir::Expr::Binary { lhs, rhs, op } => {
            assert_eq!(*op, BinaryOp::Add);
            assert!(lhs.0 < tail.0 && rhs.0 < tail.0);
            assert_eq!(bodies.range_for_expr(*lhs), TextRange::new(20, 21));
            assert_eq!(bodies.range_for_expr(*rhs), TextRange::new(24, 29));
            assert!(bodies.range_for_expr(tail).contains_range(bodies.range_for_expr(*rhs)));
        }
        other => panic!("not a sum: {:?}", other),
    }
}

#[test]
fn an_expression_for_a_missing_piece_has_the_range_around_it() {
    let source = "foo :: (x) {}";
    let (bodies, _, mut interner, _) = lower_source(source, &fake_host(), "main.capy");
    let foo = bodies.global_body(capy::names::Name(interner.intern("foo")));
    let lambda = match bodies.expr(foo) {
        capy::hir::Expr::Lambda(id) => bodies.lambda(*id),
        other => panic!("not a lambda: {:?}", other),
    };
    let ty = lambda.params[0].ty;
    assert_eq!(bodies.expr(ty), &capy::hir::Expr::Missing);
    assert_eq!(bodies.range_for_expr(ty), TextRange::new(7, 13));
    assert_eq!(bodies.range_for_expr(foo), TextRange::new(7, 13));
}

#[test]
fn a_definition_without_a_value_has_a_body_with_its_range() {
    let root = Root {
        defs: vec![Define {
            mutable: false,
            name: Some(Ident { text: "foo".to_string(), range: TextRange::new(0, 3) }),
            ty: None,
            value: None,
            range: TextRange::new(0, 6),
        }],
    };
    let mut interner = Interner::default();
    let mut uid_gen = UIDGenerator::default();
    let (index, _) = index(&root, &mut interner);
    let (bodies, diagnostics) =
        lower(&root, "main.capy", &index, &mut uid_gen, &mut interner, &fake_host());
    assert!(diagnostics.is_empty());
    let foo = bodies.global_body(capy::names::Name(interner.intern("foo")));
    assert_eq!(foo.0, 0);
    assert_eq!(bodies.expr(foo), &capy::hir::Expr::Missing);
    assert_eq!(bodies.range_for_expr(foo), TextRange::new(0, 6));
}

#[test]
fn every_expression_has_a_range() {
    let source = r#"
        a :: (x, : i32) -> { if { } else  };
        b :: () { y := ; z[ ] = f(, 1) + ; [] { , } }
    "#;
    let (bodies, _, mut interner, _) = lower_source(source, &fake_host(), "main.capy");
    let b = bodies.global_body(capy::names::Name(interner.intern("b")));
    let whole = TextRange::new(0, source.len() as u32);
    for raw in 0..=b.0 {
        let range = bodies.range_for_expr(capy::hir::ExprId(raw));
        assert!(range.start <= range.end);
        assert!(whole.contains_range(range));
    }
}

#[test]
fn distinct_and_struct_get_unique_ids_in_order() {
    let source = "a :: distinct i32; b :: distinct i32; c :: struct { x: a, y: b };";
    let (text, diagnostics) = printed(source);
    assert_eq!(
        text,
        "main::a :: distinct'0 i32;\nmain::b :: distinct'1 i32;\nmain::c :: struct'2 { x:a, y:b };\n"
    );
    assert!(diagnostics.is_empty());
    let (_, _, _, uid_gen) = lower_source(source, &fake_host(), "main.capy");
    assert_eq!(uid_gen.next, 3);
}

#[test]
fn struct_literal_ref_deref_cast_index_and_loops() {
    let source = r#"
        main :: () {
            p := point { x: 1, y: 2 };
            q := ^mut p;
            q^.x = 5 as i64;
            arr := [2] i32 { 1, 2 };
            while arr[0] < 3 { arr[0] = arr[0] + 1; }
            loop { -1; !true; }
        }
    "#;
    let (text, diagnostics) = printed(source);
    assert_eq!(
        text,
        concat_lines(&[
            "main::main :: () {",
            "    l0 := <missing> {x: 1, y: 2};",
            "    l1 := ^mut l0;",
            "    l1^.x = 5 as i64;",
            "    l2 := [2]i32{ 1, 2 };",
            "    while l2[0] < 3 {",
            "        l2[0] = l2[0] + 1;",
            "    };",
            "    loop {",
            "        -1;",
            "        !true;",
            "    }",
            "};",
        ])
    );
    assert_eq!(diagnostics.len(), 1);
}

fn concat_lines(lines: &[&str]) -> String {
    let mut text = String::new();
    for line in lines {
        text.push_str(line);
        text.push('\n');
    }
    text
}

#[test]
fn a_long_block_is_written_on_lines_of_its_own() {
    let source = "main :: () -> i32 { 1111111111 + 2222222222 + 3333333333 + 4444444444 + 5555555555 + 6666666666 }";
    let (text, _) = printed(source);
    assert_eq!(
        text,
        "main::main :: () -> i32 {\n    1111111111 + 2222222222 + 3333333333 + 4444444444 + 5555555555 + 6666666666\n};\n"
    );
}

#[test]
fn expressions_are_printed_with_their_indices() {
    let (bodies, _, mut interner, _) = lower_source("foo :: 5;", &fake_host(), "main.capy");
    let module = FileName(interner.intern("main.capy"));
    assert_eq!(
        bodies.debug(module, "", &interner, true),
        "main::foo :: \x1B[90m(\x1B[0m5\x1B[90m #0)\x1B[0m;\n"
    );
}

#[test]
fn module_names_are_relative_to_the_project_root() {
    let (bodies, _, mut interner, _) = lower_source("foo :: 5;", &fake_host(), "main.capy");
    let module = FileName(interner.intern("/project/src/deep/file.capy"));
    assert_eq!(
        bodies.debug(module, "/project/src", &interner, false),
        "deep::file::foo :: 5;\n"
    );
}

fn disk_host(files: &[&str]) -> Host {
    Host {
        separator: '/',
        disk: Some(capy::host::Disk {
            current_dir: "/work".to_string(),
            files: files.iter().map(|file| file.to_string()).collect(),
        }),
    }
}

#[test]
fn imports_resolve_to_one_canonical_file_name() {
    let source = r#"
        first :: import "./a/../b.capy";
        second :: import "b.capy";
    "#;
    let host = disk_host(&["/work/src/b.capy"]);
    let (bodies, diagnostics, mut interner, _) = lower_source(source, &host, "src/main.capy");
    assert_eq!(diagnostics, vec![]);
    let file = FileName(interner.intern("/work/src/b.capy"));
    assert_eq!(bodies.imports(), vec![file]);
    assert!(bodies.has_import(file));
    let first = bodies.global_body(capy::names::Name(interner.intern("first")));
    let second = bodies.global_body(capy::names::Name(interner.intern("second")));
    assert_eq!(bodies.expr(first), &capy::hir::Expr::Import(file));
    assert_eq!(bodies.expr(second), &capy::hir::Expr::Import(file));
}

#[test]
fn an_import_of_a_file_that_does_not_exist_is_reported() {
    let source = r#"other :: import "other.capy";"#;
    let host = disk_host(&["/work/src/b.capy"]);
    let (bodies, diagnostics, mut interner, _) = lower_source(source, &host, "src/main.capy");
    assert_eq!(
        diagnostics,
        vec![LoweringDiagnostic {
            kind: LoweringDiagnosticKind::ImportDoesNotExist {
                file: "/work/src/other.capy".to_string()
            },
            range: TextRange::new(16, 28),
        }]
    );
    assert!(bodies.imports().is_empty());
    let other = bodies.global_body(capy::names::Name(interner.intern("other")));
    assert_eq!(bodies.expr(other), &capy::hir::Expr::Missing);
}

#[test]
fn an_import_without_a_disk_takes_the_path_as_written() {
    let source = r#"other :: import "dir\other.capy";"#;
    let host = Host { separator: '/', disk: None };
    let (bodies, diagnostics, mut interner, _) = lower_source(source, &host, "main.capy");
    assert_eq!(diagnostics.len(), 1, "{:?}", diagnostics);
    assert!(bodies.imports().is_empty());
    let source = r#"other :: import "dir/other.capy";"#;
    let host = Host { separator: '\\', disk: None };
    let (bodies, diagnostics, mut interner2, _) = lower_source(source, &host, "main.capy");
    assert_eq!(diagnostics, vec![]);
    assert_eq!(bodies.imports(), vec![FileName(interner2.intern("dir\\other.capy"))]);
    let _ = interner.intern("x");
}

#[test]
fn an_import_with_an_invalid_escape_imports_nothing() {
    let source = r#"other :: import "a\qb.capy";"#;
    let (text, diagnostics) = printed(source);
    assert_eq!(text, "main::other :: <missing>;\n");
    assert_eq!(
        diagnostics,
        vec![LoweringDiagnostic {
            kind: LoweringDiagnosticKind::InvalidEscape,
            range: TextRange::new(18, 20),
        }]
    );
}

#[test]
fn comptime_blocks_are_listed() {
    let source = "a :: comptime { 1 }; b :: () { x :: comptime { 2 }; }";
    let (bodies, _, _, _) = lower_source(source, &fake_host(), "main.capy");
    let comptimes = bodies.comptimes();
    assert_eq!(comptimes.len(), 2);
    assert_eq!(comptimes[0].0, 0);
    assert_eq!(comptimes[1].0, 1);
    let body = bodies.comptime(comptimes[1]).body;
    assert!(matches!(bodies.expr(body), capy::hir::Expr::Block { .. }));
}

#[test]
fn a_global_has_the_expression_of_its_type() {
    let source = "x : i32 : 5; y :: 6;";
    let (bodies, _, mut interner, _) = lower_source(source, &fake_host(), "main.capy");
    let x = capy::names::Name(interner.intern("x"));
    let y = capy::names::Name(interner.intern("y"));
    let ty = bodies.global_ty(x).unwrap();
    assert_eq!(
        bodies.expr(ty),
        &capy::hir::Expr::PrimitiveTy(capy::hir::PrimitiveTy::IInt(32))
    );
    assert_eq!(bodies.global_ty(y), None);
}

#[test]
fn indexing_reports_what_is_wrong_at_the_root() {
    let mut interner = Interner::default();
    let root = parse("a := 1; b :: 2; b :: 3; c : i32 : () {}; d :: () {}; e : i32 : 4;");
    let (index, diagnostics) = index(&root, &mut interner);
    let a = interner.intern("a");
    let b = interner.intern("b");
    let names = ["a", "b", "c", "d", "e"];
    for name in names {
        assert!(index.is_defined(capy::names::Name(interner.intern(name))));
    }
    assert!(!index.is_defined(capy::names::Name(interner.intern("f"))));
    assert_eq!(
        diagnostics,
        vec![
            IndexingDiagnostic {
                kind: IndexingDiagnosticKind::NonBindingAtRoot,
                range: TextRange::new(0, 6),
            },
            IndexingDiagnostic {
                kind: IndexingDiagnosticKind::MissingTy { name: a },
                range: TextRange::new(0, 1),
            },
            IndexingDiagnostic {
                kind: IndexingDiagnosticKind::MissingTy { name: b },
                range: TextRange::new(8, 9),
            },
            IndexingDiagnostic {
                kind: IndexingDiagnosticKind::AlreadyDefined { name: b },
                range: TextRange::new(16, 17),
            },
            IndexingDiagnostic {
                kind: IndexingDiagnosticKind::FunctionTy,
                range: TextRange::new(24, 39),
            },
        ]
    );
}

#[test]
fn unique_ids_start_where_the_generator_stands() {
    let source = "a :: distinct i32; b :: struct { x: distinct a };";
    let mut interner = Interner::default();
    let mut uid_gen = UIDGenerator { next: 5 };
    let root = parse(source);
    let (index, _) = index(&root, &mut interner);
    let (bodies, _) = lower(&root, "main.capy", &index, &mut uid_gen, &mut interner, &fake_host());
    let module = FileName(interner.intern("main.capy"));
    assert_eq!(
        bodies.debug(module, "", &interner, false),
        "main::a :: distinct'5 i32;\nmain::b :: struct'7 { x:distinct'6 a };\n"
    );
    assert_eq!(uid_gen.next, 8);
}

#[test]
fn every_stored_name_is_a_key_of_the_interner() {
    let source = r#"
        p :: struct { x: i32 };
        f :: (a: i32, b) -> p { q := p { x: a }; q.x + nothing; other :: import "o.capy"; q }
    "#;
    let (bodies, diagnostics, interner, _) = lower_source(source, &fake_host(), "main.capy");
    let known = interner.len() as u32;
    for diagnostic in &diagnostics {
        if let LoweringDiagnosticKind::UndefinedRef { name } = diagnostic.kind {
            assert!(name.to_raw() < known);
            assert_eq!(interner.lookup(name), "nothing");
        }
    }
    assert_eq!(diagnostics.len(), 1);
    for file in bodies.imports() {
        assert_eq!(interner.lookup(file.0), "o.capy");
    }
    let mut interner = interner;
    let module = FileName(interner.intern("main.capy"));
    assert!(!bodies.debug(module, "", &interner, false).contains("<unknown>"));
}
