//! Hovers from the token stream alone, so that lexical information is there
//! even when the document does not parse.
use vstd::prelude::*;
use crate::position::{Position, Range};
use crate::facts::{Hover, HoverFact, hover_fact, hover_facts};

verus! {

/// The kinds of token the lexer produces.
#[derive(Clone, Copy, Debug, PartialEq, Eq, Structural)]
pub enum TokenKind {
    Eof,
    Error,
    Void,
    Int,
    Bool,
    String,
    New,
    Null,
    True,
    False,
    Class,
    Extends,
    This,
    While,
    For,
    If,
    Else,
    Return,
    Break,
    Print,
    ReadInteger,
    ReadLine,
    Static,
    InstanceOf,
    Le,
    Ge,
    Eq,
    Ne,
    And,
    Or,
    Add,
    Sub,
    Mul,
    Div,
    Mod,
    Assign,
    Lt,
    Gt,
    Dot,
    Comma,
    Semi,
    Not,
    LPar,
    RPar,
    LBrk,
    RBrk,
    LBrc,
    RBrc,
    Colon,
    IntLit,
    StringLit,
    UntermString,
    Id,
}

/// A token: its kind, the 1-based line and column of its first byte, and its
/// text.
#[derive(Clone, Debug)]
pub struct Token {
    pub ty: TokenKind,
    pub line: u32,
    pub col: u32,
    pub piece: Vec<u8>,
}

/// Identifiers, operators, punctuation and delimiters get no hover.
pub open spec fn is_skipped(k: TokenKind) -> bool {
    match k {
        TokenKind::Id | TokenKind::Le | TokenKind::Ge | TokenKind::Eq | TokenKind::Ne
        | TokenKind::And | TokenKind::Add | TokenKind::Sub | TokenKind::Mul | TokenKind::Div
        | TokenKind::Mod | TokenKind::Assign | TokenKind::Lt | TokenKind::Gt | TokenKind::Dot
        | TokenKind::Comma | TokenKind::Semi | TokenKind::Not | TokenKind::LPar
        | TokenKind::RPar | TokenKind::LBrk | TokenKind::RBrk | TokenKind::LBrc
        | TokenKind::RBrc | TokenKind::Colon => true,
        _ => false,
    }
}

/// The hover text of a token kind: a label for literals, the kind's name for
/// the rest.
pub open spec fn kind_label(k: TokenKind) -> Seq<char> {
    match k {
        TokenKind::IntLit => "Integer Literal"@,
        TokenKind::StringLit => "String Literal"@,
        TokenKind::UntermString => "Unterminated String Literal"@,
        TokenKind::Eof => "Eof"@,
        TokenKind::Error => "Error"@,
        TokenKind::Void => "Void"@,
        TokenKind::Int => "Int"@,
        TokenKind::Bool => "Bool"@,
        TokenKind::String => "String"@,
        TokenKind::New => "New"@,
        TokenKind::Null => "Null"@,
        TokenKind::True => "True"@,
        TokenKind::False => "False"@,
        TokenKind::Class => "Class"@,
        TokenKind::Extends => "Extends"@,
        TokenKind::This => "This"@,
        TokenKind::While => "While"@,
        TokenKind::For => "For"@,
        TokenKind::If => "If"@,
        TokenKind::Else => "Else"@,
        TokenKind::Return => "Return"@,
        TokenKind::Break => "Break"@,
        TokenKind::Print => "Print"@,
        TokenKind::ReadInteger => "ReadInteger"@,
        TokenKind::ReadLine => "ReadLine"@,
        TokenKind::Static => "Static"@,
        TokenKind::InstanceOf => "InstanceOf"@,
        TokenKind::Le => "Le"@,
        TokenKind::Ge => "Ge"@,
        TokenKind::Eq => "Eq"@,
        TokenKind::Ne => "Ne"@,
        TokenKind::And => "And"@,
        TokenKind::Or => "Or"@,
        TokenKind::Add => "Add"@,
        TokenKind::Sub => "Sub"@,
        TokenKind::Mul => "Mul"@,
        TokenKind::Div => "Div"@,
        TokenKind::Mod => "Mod"@,
        TokenKind::Assign => "Assign"@,
        TokenKind::Lt => "Lt"@,
        TokenKind::Gt => "Gt"@,
        TokenKind::Dot => "Dot"@,
        TokenKind::Comma => "Comma"@,
        TokenKind::Semi => "Semi"@,
        TokenKind::Not => "Not"@,
        TokenKind::LPar => "LPar"@,
        TokenKind::RPar => "RPar"@,
        TokenKind::LBrk => "LBrk"@,
        TokenKind::RBrk => "RBrk"@,
        TokenKind::LBrc => "LBrc"@,
        TokenKind::RBrc => "RBrc"@,
        TokenKind::Colon => "Colon"@,
        TokenKind::Id => "Id"@,
    }
}

/// A token whose range can be computed: a real position, and an end column
/// (start column plus length minus two) that is neither negative nor too large.
pub open spec fn token_fits(t: Token) -> bool {
    &&& t.line >= 1
    &&& t.col >= 1
    &&& 2 <= t.col + t.piece@.len() <= u64::MAX + 2
}

/// The range of a token: it starts at the token and ends at column
/// `col + len - 2`, in protocol terms.
pub open spec fn token_range(t: Token) -> Range {
    Range {
        start: Position { line: (t.line - 1) as u64, character: (t.col - 1) as u64 },
        end: Position { line: (t.line - 1) as u64, character: (t.col + t.piece@.len() - 2) as u64 },
    }
}

/// The hovers of a token stream, up to its first end-of-stream token.
pub open spec fn token_hover_facts(ts: Seq<Token>) -> Seq<HoverFact>
    decreases ts.len(),
{
    if ts.len() == 0 || ts[0].ty == TokenKind::Eof {
        seq![]
    } else {
        let rest = token_hover_facts(ts.drop_first());
        if is_skipped(ts[0].ty) {
            rest
        } else {
            seq![(token_range(ts[0]), kind_label(ts[0].ty), None::<Range>)] + rest
        }
    }
}

/// Every token that gets a hover, up to the first end-of-stream token, fits.
pub open spec fn tokens_fit(ts: Seq<Token>) -> bool
    decreases ts.len(),
{
    ts.len() == 0 || ts[0].ty == TokenKind::Eof || ((is_skipped(ts[0].ty) || token_fits(ts[0]))
        && tokens_fit(ts.drop_first()))
}

/// The range of a token.
pub fn token(tok: &Token) -> (r: Range)
    requires
        token_fits(*tok),
    ensures
        r == token_range(*tok),
{
    let line = tok.line as u64 - 1;
    let start = tok.col as u64 - 1;
    let n = tok.piece.len() as u64;
    let end = if n == 0 {
        start - 1
    } else {
        start + (n - 1)
    };
    Range { start: Position { line, character: start }, end: Position { line, character: end } }
}

/// Tells whether a token kind gets no hover.
pub fn skipped(k: TokenKind) -> (r: bool)
    ensures
        r == is_skipped(k),
{
    match k {
        TokenKind::Id | TokenKind::Le | TokenKind::Ge | TokenKind::Eq | TokenKind::Ne
        | TokenKind::And | TokenKind::Add | TokenKind::Sub | TokenKind::Mul | TokenKind::Div
        | TokenKind::Mod | TokenKind::Assign | TokenKind::Lt | TokenKind::Gt | TokenKind::Dot
        | TokenKind::Comma | TokenKind::Semi | TokenKind::Not | TokenKind::LPar
        | TokenKind::RPar | TokenKind::LBrk | TokenKind::RBrk | TokenKind::LBrc
        | TokenKind::RBrc | TokenKind::Colon => true,
        _ => false,
    }
}

/// The hover text of a token kind.
pub fn label(k: TokenKind) -> (r: String)
    ensures
        r@ == kind_label(k),
{
    let s = match k {
        TokenKind::IntLit => "Integer Literal",
        TokenKind::StringLit => "String Literal",
        TokenKind::UntermString => "Unterminated String Literal",
        TokenKind::Eof => "Eof",
        TokenKind::Error => "Error",
        TokenKind::Void => "Void",
        TokenKind::Int => "Int",
        TokenKind::Bool => "Bool",
        TokenKind::String => "String",
        TokenKind::New => "New",
        TokenKind::Null => "Null",
        TokenKind::True => "True",
        TokenKind::False => "False",
        TokenKind::Class => "Class",
        TokenKind::Extends => "Extends",
        TokenKind::This => "This",
        TokenKind::While => "While",
        TokenKind::For => "For",
        TokenKind::If => "If",
        TokenKind::Else => "Else",
        TokenKind::Return => "Return",
        TokenKind::Break => "Break",
        TokenKind::Print => "Print",
        TokenKind::ReadInteger => "ReadInteger",
        TokenKind::ReadLine => "ReadLine",
        TokenKind::Static => "Static",
        TokenKind::InstanceOf => "InstanceOf",
        TokenKind::Le => "Le",
        TokenKind::Ge => "Ge",
        TokenKind::Eq => "Eq",
        TokenKind::Ne => "Ne",
        TokenKind::And => "And",
        TokenKind::Or => "Or",
        TokenKind::Add => "Add",
        TokenKind::Sub => "Sub",
        TokenKind::Mul => "Mul",
        TokenKind::Div => "Div",
        TokenKind::Mod => "Mod",
        TokenKind::Assign => "Assign",
        TokenKind::Lt => "Lt",
        TokenKind::Gt => "Gt",
        TokenKind::Dot => "Dot",
        TokenKind::Comma => "Comma",
        TokenKind::Semi => "Semi",
        TokenKind::Not => "Not",
        TokenKind::LPar => "LPar",
        TokenKind::RPar => "RPar",
        TokenKind::LBrk => "LBrk",
        TokenKind::RBrk => "RBrk",
        TokenKind::LBrc => "LBrc",
        TokenKind::RBrc => "RBrc",
        TokenKind::Colon => "Colon",
        TokenKind::Id => "Id",
    };
    String::from_str(s)
}

/// The hovers of a token stream: one for each token up to the first
/// end-of-stream token whose kind is not skipped, in stream order.
pub fn token_hovers(tokens: &Vec<Token>) -> (r: Vec<(Range, Hover)>)
    requires
        tokens_fit(tokens@),
    ensures
        hover_facts(r@) == token_hover_facts(tokens@),
{
    let mut out: Vec<(Range, Hover)> = Vec::new();
    let mut i: usize = 0;
    proof {
        assert(tokens@.subrange(0, tokens.len() as int) =~= tokens@);
        assert(hover_facts(out@) + token_hover_facts(tokens@) =~= token_hover_facts(tokens@));
    }
    while i < tokens.len()
        invariant_except_break
            i <= tokens.len(),
            tokens_fit(tokens@.subrange(i as int, tokens.len() as int)),
            hover_facts(out@) + token_hover_facts(tokens@.subrange(i as int, tokens.len() as int))
                == token_hover_facts(tokens@),
        ensures
            hover_facts(out@) == token_hover_facts(tokens@),
        decreases tokens.len() - i,
    {
        let ghost rest = tokens@.subrange(i as int, tokens.len() as int);
        assert(rest.drop_first() =~= tokens@.subrange(i + 1, tokens.len() as int));
        let tok = &tokens[i];
        if tok.ty == TokenKind::Eof {
            assert(hover_facts(out@) + seq![] =~= hover_facts(out@));
            break;
        }
        if !skipped(tok.ty) {
            let h = Hover { contents: label(tok.ty), range: None };
            let ghost before = out@;
            out.push((token(tok), h));
            assert(hover_facts(out@) =~= hover_facts(before).push(hover_fact(out@.last())));
            assert(hover_facts(out@) + token_hover_facts(rest.drop_first()) =~= hover_facts(before)
                + token_hover_facts(rest));
        }
        i = i + 1;
    }
    proof {
        if i == tokens.len() {
            assert(hover_facts(out@) + seq![] =~= hover_facts(out@));
        }
    }
    out
}

} // verus!
