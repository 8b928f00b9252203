//! The grammar rule table.
//!
//! An immutable mapping from exact, order-sensitive sequences of token kinds
//! to the non-terminal kind a matching window is reduced to. Today exactly
//! two productions are registered: `IDENT COLON INT` declares an integer
//! variable and `IDENT COLON BOOL` a boolean one. The table can grow longer
//! or shorter patterns without changing the reducer, which bounds its search
//! window at `MAX_RULE_LEN` independently of the rules registered.

use vstd::prelude::*;

use crate::token::TokenKind;

verus! {

/// The fixed maximum window length the reducer examines, chosen above the
/// longest registered pattern to allow future growth.
pub const MAX_RULE_LEN: usize = 5;

/// A grammar rule: the exact pattern of token kinds it matches, the
/// non-terminal kind the matched window becomes, and whether the result
/// completes a statement.
pub struct Instruction {
    pub tokens: Vec<TokenKind>,
    pub make: TokenKind,
    pub is_final: bool,
}

/// The rule table as a mapping: the resultant kind of the rule whose
/// pattern is exactly `key`, if any. Patterns are keyed exactly, with no
/// wildcards.
pub open spec fn spec_lookup(key: Seq<TokenKind>) -> Option<TokenKind> {
    if key == seq![TokenKind::Ident, TokenKind::Colon, TokenKind::Int] {
        Some(TokenKind::IntDeclaration)
    } else if key == seq![TokenKind::Ident, TokenKind::Colon, TokenKind::Bool] {
        Some(TokenKind::BoolDeclaration)
    } else {
        None
    }
}

/// A rule only ever matches windows of its own pattern's length, today
/// three, and only ever makes one of the two declaration non-terminals.
pub proof fn lemma_lookup_matches(key: Seq<TokenKind>)
    requires
        spec_lookup(key) is Some,
    ensures
        key.len() == 3,
        spec_lookup(key) == Some(TokenKind::IntDeclaration) || spec_lookup(key) == Some(
            TokenKind::BoolDeclaration,
        ),
        spec_lookup(key) == Some(TokenKind::IntDeclaration) ==> key == seq![
            TokenKind::Ident,
            TokenKind::Colon,
            TokenKind::Int,
        ],
        spec_lookup(key) == Some(TokenKind::BoolDeclaration) ==> key == seq![
            TokenKind::Ident,
            TokenKind::Colon,
            TokenKind::Bool,
        ],
{
}

/// Look a window of token kinds up in the rule table.
pub fn lookup(key: &Vec<TokenKind>) -> (r: Option<Instruction>)
    ensures
        match r {
            Some(ins) => spec_lookup(key@) == Some(ins.make) && ins.tokens@ == key@
                && ins.is_final,
            None => spec_lookup(key@) is None,
        },
{
    proof {
        let pat_int = seq![TokenKind::Ident, TokenKind::Colon, TokenKind::Int];
        let pat_bool = seq![TokenKind::Ident, TokenKind::Colon, TokenKind::Bool];
        assert(pat_int.len() == 3 && pat_int[0] == TokenKind::Ident && pat_int[1]
            == TokenKind::Colon && pat_int[2] == TokenKind::Int);
        assert(pat_bool.len() == 3 && pat_bool[0] == TokenKind::Ident && pat_bool[1]
            == TokenKind::Colon && pat_bool[2] == TokenKind::Bool);
    }
    if key.len() == 3 && key[0] == TokenKind::Ident && key[1] == TokenKind::Colon && key[2]
        == TokenKind::Int {
        proof {
            assert(key@ =~= seq![TokenKind::Ident, TokenKind::Colon, TokenKind::Int]);
        }
        Some(
            Instruction {
                tokens: vec![TokenKind::Ident, TokenKind::Colon, TokenKind::Int],
                make: TokenKind::IntDeclaration,
                is_final: true,
            },
        )
    } else if key.len() == 3 && key[0] == TokenKind::Ident && key[1] == TokenKind::Colon && key[2]
        == TokenKind::Bool {
        proof {
            assert(key@ =~= seq![TokenKind::Ident, TokenKind::Colon, TokenKind::Bool]);
        }
        Some(
            Instruction {
                tokens: vec![TokenKind::Ident, TokenKind::Colon, TokenKind::Bool],
                make: TokenKind::BoolDeclaration,
                is_final: true,
            },
        )
    } else {
        None
    }
}

} // verus!
