use vstd::prelude::*;

verus! {

/// The closed set of token kinds: single- and double-character operators,
/// fixed keywords, the open-ended kinds carrying a payload, the line-boundary
/// marker, and the non-terminal kinds synthesized only by reduction.
#[derive(Clone, Copy, PartialEq, Eq, Structural, Debug)]
pub enum TokenKind {
    Colon,
    Assign,
    Plus,
    Minus,
    Asterisk,
    Divide,
    Bang,
    Equal,
    Different,
    LParen,
    RParen,
    LBrace,
    RBrace,
    For,
    If,
    Else,
    Int,
    Bool,
    Function,
    Return,
    Ident,
    Number,
    StringLit,
    Illegal,
    EndLine,
    IntDeclaration,
    BoolDeclaration,
}

/// A classified lexical unit. `value` is populated only for the open-ended
/// kinds (`Ident`, `Number`, `StringLit`, `Illegal`); `line` is the 1-based
/// source line and `column` the 1-based count of characters consumed through
/// (and including) the token. Synthetic tokens carry position 0.
pub struct Token {
    pub kind: TokenKind,
    pub value: Option<String>,
    pub line: usize,
    pub column: usize,
}

/// The mathematical model of a token, used by every contract of the library.
pub struct TokenModel {
    pub kind: TokenKind,
    pub value: Option<Seq<char>>,
    pub line: int,
    pub column: int,
}

impl View for Token {
    type V = TokenModel;

    open spec fn view(&self) -> TokenModel {
        TokenModel {
            kind: self.kind,
            value: self.value.deep_view(),
            line: self.line as int,
            column: self.column as int,
        }
    }
}

impl DeepView for Token {
    type V = TokenModel;

    open spec fn deep_view(&self) -> TokenModel {
        self.view()
    }
}

/// The model sequence of a token sequence: each token replaced by its
/// mathematical model.
pub open spec fn models(ts: Seq<Token>) -> Seq<TokenModel> {
    ts.map(|i: int, t: Token| t@)
}

pub proof fn lemma_models_push(ts: Seq<Token>, t: Token)
    ensures
        models(ts.push(t)) == models(ts).push(t@),
{
    assert(models(ts.push(t)) =~= models(ts).push(t@));
}

impl Token {
    pub fn new(kind: TokenKind, value: Option<String>, line: usize, column: usize) -> (t: Token)
        ensures
            t@ == (TokenModel {
                kind,
                value: value.deep_view(),
                line: line as int,
                column: column as int,
            }),
    {
        Token { kind, value, line, column }
    }
}

} // verus!
