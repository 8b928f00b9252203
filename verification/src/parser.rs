//! The reducer: a stack-based grammar engine.
//!
//! `Reducer::feed` appends one token to the parse stack and then reduces to
//! fixpoint: window lengths are tried from `MAX_RULE_LEN` down to 1, so a
//! longer rule always wins over a shorter one, and each reduction pops the
//! matched window, builds the abstract-syntax fragment for the rule's
//! action, and pushes one synthetic token of the rule's resultant kind. The
//! fragments are returned in the order the reductions fired; the caller
//! lowers each one through the code-emission backend. A token no rule ever
//! matches stays on the stack; `first_unreduced` surfaces such unexpected
//! trailing input at end of input.

use vstd::prelude::*;

use crate::rules::lemma_lookup_matches;
use crate::rules::lookup;
use crate::rules::spec_lookup;
use crate::rules::Instruction;
use crate::rules::MAX_RULE_LEN;
use crate::token::lemma_models_push;
use crate::token::models;
use crate::token::Token;
use crate::token::TokenKind;
use crate::token::TokenModel;

verus! {

/// An abstract-syntax fragment built by one reduction, carrying the
/// declared variable's name. Each fragment stands for one effect asked of
/// the code-emission backend: allocate named storage of the primitive kind.
pub enum ASTNode {
    IntDeclaration(String),
    BoolDeclaration(String),
}

/// The mathematical model of an abstract-syntax fragment.
pub enum ASTNodeModel {
    IntDeclaration(Seq<char>),
    BoolDeclaration(Seq<char>),
}

impl View for ASTNode {
    type V = ASTNodeModel;

    open spec fn view(&self) -> ASTNodeModel {
        match self {
            ASTNode::IntDeclaration(name) => ASTNodeModel::IntDeclaration(name@),
            ASTNode::BoolDeclaration(name) => ASTNodeModel::BoolDeclaration(name@),
        }
    }
}

impl DeepView for ASTNode {
    type V = ASTNodeModel;

    open spec fn deep_view(&self) -> ASTNodeModel {
        self.view()
    }
}

/// The model sequence of a fragment sequence.
pub open spec fn node_models(ns: Seq<ASTNode>) -> Seq<ASTNodeModel> {
    ns.map(|i: int, n: ASTNode| n@)
}

pub proof fn lemma_node_models_push(ns: Seq<ASTNode>, n: ASTNode)
    ensures
        node_models(ns.push(n)) == node_models(ns).push(n@),
{
    assert(node_models(ns.push(n)) =~= node_models(ns).push(n@));
}

/// The kinds of the top-of-stack window of length `l`, in stack order.
pub open spec fn window_kinds(s: Seq<TokenModel>, l: int) -> Seq<TokenKind> {
    s.subrange(s.len() - l, s.len() as int).map(|i: int, t: TokenModel| t.kind)
}

/// The window the reducer reduces next: scanning window lengths from `l`
/// down to 1, the first (longest) whose kinds match a rule.
pub open spec fn find_reduction_from(s: Seq<TokenModel>, l: int) -> Option<int>
    decreases l,
{
    if l < 1 {
        None
    } else if l <= s.len() && spec_lookup(window_kinds(s, l)) is Some {
        Some(l)
    } else {
        find_reduction_from(s, l - 1)
    }
}

/// The length of the longest matching top-of-stack window within the
/// reducer's search bound, if any rule matches at all.
pub open spec fn find_reduction(s: Seq<TokenModel>) -> Option<int> {
    find_reduction_from(s, MAX_RULE_LEN as int)
}

/// The synthetic token a reduction pushes: the rule's resultant kind, no
/// payload, and positions of 0, which carry no meaning for it.
pub open spec fn synthetic_token(make: TokenKind) -> TokenModel {
    TokenModel { kind: make, value: None, line: 0, column: 0 }
}

/// The fragment built from a matched window of length `l`: the declared
/// name is the payload of the window's first token, the identifier in both
/// registered patterns, or empty if that token carries none.
pub open spec fn node_of(s: Seq<TokenModel>, l: int, make: TokenKind) -> ASTNodeModel {
    let name = match s[s.len() - l].value {
        Some(v) => v,
        None => Seq::empty(),
    };
    if make == TokenKind::BoolDeclaration {
        ASTNodeModel::BoolDeclaration(name)
    } else {
        ASTNodeModel::IntDeclaration(name)
    }
}

/// One reduction: pop the longest matching window, build its fragment, and
/// push one synthetic token of the rule's resultant kind. `None` when no
/// window within the search bound matches.
pub open spec fn reduce_step(s: Seq<TokenModel>) -> Option<(Seq<TokenModel>, ASTNodeModel)> {
    match find_reduction(s) {
        Some(l) => match spec_lookup(window_kinds(s, l)) {
            Some(make) => Some(
                (s.subrange(0, s.len() - l).push(synthetic_token(make)), node_of(s, l, make)),
            ),
            None => None,
        },
        None => None,
    }
}

/// Run reductions to fixpoint after a feed: the stack once no rule matches
/// any more, and the fragments built, in the order the reductions fired.
pub open spec fn reduce_all(s: Seq<TokenModel>) -> (Seq<TokenModel>, Seq<ASTNodeModel>)
    decreases s.len(),
{
    match reduce_step(s) {
        Some((s2, node)) => {
            if s2.len() < s.len() {
                let (s3, nodes) = reduce_all(s2);
                (s3, seq![node] + nodes)
            } else {
                // never taken: every registered rule replaces three tokens
                // by one, so a reduction always shrinks the stack
                (s2, seq![node])
            }
        },
        None => (s, Seq::empty()),
    }
}

/// Feeding a token appends it to the stack and reduces to fixpoint.
pub open spec fn spec_feed(s: Seq<TokenModel>, t: TokenModel) -> (Seq<TokenModel>, Seq<
    ASTNodeModel,
>) {
    reduce_all(s.push(t))
}

/// A found window length lies between 1 and the search bound, fits the
/// stack, and its kinds match a rule.
pub proof fn lemma_find_reduction_from_some(s: Seq<TokenModel>, l: int, k: int)
    requires
        find_reduction_from(s, l) == Some(k),
    ensures
        1 <= k <= l,
        k <= s.len(),
        spec_lookup(window_kinds(s, k)) is Some,
    decreases l,
{
    if l < 1 {
    } else if l <= s.len() && spec_lookup(window_kinds(s, l)) is Some {
    } else {
        lemma_find_reduction_from_some(s, l - 1, k);
    }
}

/// A reduction replaces three tokens by one: the stack shrinks by two.
pub proof fn lemma_reduce_step_shrinks(s: Seq<TokenModel>)
    requires
        reduce_step(s) is Some,
    ensures
        reduce_step(s)->Some_0.0.len() + 2 == s.len(),
        3 <= s.len(),
{
    let l = find_reduction(s)->Some_0;
    lemma_find_reduction_from_some(s, MAX_RULE_LEN as int, l);
    lemma_lookup_matches(window_kinds(s, l));
    assert(window_kinds(s, l).len() == l);
}

/// On the scan from `h` down to 1, a match at `l` guarantees a find, and
/// what is found is never shorter than `l`.
proof fn lemma_find_from_at_least(s: Seq<TokenModel>, h: int, l: int)
    requires
        1 <= l <= h,
        l <= s.len(),
        spec_lookup(window_kinds(s, l)) is Some,
    ensures
        find_reduction_from(s, h) is Some,
        find_reduction_from(s, h)->Some_0 >= l,
    decreases h,
{
    if h == l {
    } else if h <= s.len() && spec_lookup(window_kinds(s, h)) is Some {
    } else {
        lemma_find_from_at_least(s, h - 1, l);
    }
}

/// Law: longer windows are always tried before shorter ones. Whenever the
/// top of the stack matches a rule at some window length within the search
/// bound, the reducer finds a match, and the window it reduces is at least
/// that long: a longer matching rule always wins over a shorter one.
pub proof fn lemma_longest_rule_wins(s: Seq<TokenModel>, l: int)
    requires
        1 <= l <= MAX_RULE_LEN,
        l <= s.len(),
        spec_lookup(window_kinds(s, l)) is Some,
    ensures
        find_reduction(s) is Some,
        find_reduction(s)->Some_0 >= l,
{
    lemma_find_from_at_least(s, MAX_RULE_LEN as int, l);
}

/// Law: the reduction loop is idempotent on a stack admitting no match.
/// Running it leaves the stack unchanged and builds no fragment.
pub proof fn lemma_reduce_idempotent(s: Seq<TokenModel>)
    requires
        find_reduction(s) is None,
    ensures
        reduce_all(s) == (s, Seq::<ASTNodeModel>::empty()),
{
}

/// Whether a kind may remain on the parse stack when input ends: the
/// line-boundary marker and the non-terminals produced by reduction.
pub open spec fn spec_resolved(k: TokenKind) -> bool {
    k == TokenKind::EndLine || k == TokenKind::IntDeclaration || k == TokenKind::BoolDeclaration
}

/// Reduce a matched integer-declaration window: pop the three matched
/// tokens, build the fragment carrying the declared name, and push the
/// resultant non-terminal token.
fn process_int_declaration(stack: &mut Vec<Token>) -> (node: ASTNode)
    requires
        old(stack)@.len() >= 3,
    ensures
        models(final(stack)@) == models(old(stack)@).subrange(0, old(stack)@.len() - 3).push(
            synthetic_token(TokenKind::IntDeclaration),
        ),
        node@ == node_of(models(old(stack)@), 3, TokenKind::IntDeclaration),
{
    let popped_last = stack.pop().unwrap();
    let popped_mid = stack.pop().unwrap();
    let ident = stack.pop().unwrap();
    let name = match ident.value {
        Some(v) => v,
        None => String::new(),
    };
    let node = ASTNode::IntDeclaration(name);
    let synthetic = Token::new(TokenKind::IntDeclaration, None, 0, 0);
    proof {
        lemma_models_push(stack@, synthetic);
        assert(stack@.push(synthetic) =~= old(stack)@.subrange(0, old(stack)@.len() - 3).push(
            synthetic,
        ));
        assert(models(old(stack)@.subrange(0, old(stack)@.len() - 3)) =~= models(
            old(stack)@,
        ).subrange(0, old(stack)@.len() - 3));
        lemma_models_push(old(stack)@.subrange(0, old(stack)@.len() - 3), synthetic);
    }
    stack.push(synthetic);
    node
}

/// Reduce a matched boolean-declaration window, as for the integer one.
fn process_bool_declaration(stack: &mut Vec<Token>) -> (node: ASTNode)
    requires
        old(stack)@.len() >= 3,
    ensures
        models(final(stack)@) == models(old(stack)@).subrange(0, old(stack)@.len() - 3).push(
            synthetic_token(TokenKind::BoolDeclaration),
        ),
        node@ == node_of(models(old(stack)@), 3, TokenKind::BoolDeclaration),
{
    let popped_last = stack.pop().unwrap();
    let popped_mid = stack.pop().unwrap();
    let ident = stack.pop().unwrap();
    let name = match ident.value {
        Some(v) => v,
        None => String::new(),
    };
    let node = ASTNode::BoolDeclaration(name);
    let synthetic = Token::new(TokenKind::BoolDeclaration, None, 0, 0);
    proof {
        lemma_models_push(stack@, synthetic);
        assert(stack@.push(synthetic) =~= old(stack)@.subrange(0, old(stack)@.len() - 3).push(
            synthetic,
        ));
        assert(models(old(stack)@.subrange(0, old(stack)@.len() - 3)) =~= models(
            old(stack)@,
        ).subrange(0, old(stack)@.len() - 3));
        lemma_models_push(old(stack)@.subrange(0, old(stack)@.len() - 3), synthetic);
    }
    stack.push(synthetic);
    node
}

/// Find the longest top-of-stack window, within the search bound, whose
/// kinds match a rule.
#[verifier::loop_isolation(false)]
fn find_match(stack: &Vec<Token>) -> (r: Option<(usize, Instruction)>)
    ensures
        match r {
            Some(pair) => {
                &&& find_reduction(models(stack@)) == Some(pair.0 as int)
                &&& spec_lookup(window_kinds(models(stack@), pair.0 as int)) == Some(pair.1.make)
                &&& 1 <= pair.0 <= stack@.len()
            },
            None => find_reduction(models(stack@)) is None,
        },
{
    let ghost s = models(stack@);
    let mut l: usize = MAX_RULE_LEN;
    while l >= 1
        invariant
            l <= MAX_RULE_LEN,
            find_reduction(s) == find_reduction_from(s, l as int),
        decreases l,
    {
        if l <= stack.len() {
            let start = stack.len() - l;
            let mut key: Vec<TokenKind> = Vec::new();
            let mut idx: usize = start;
            while idx < stack.len()
                invariant
                    start <= idx <= stack@.len(),
                    key@.len() == idx - start,
                    forall|j: int| 0 <= j < key@.len() ==> key@[j] == s[start + j].kind,
                decreases stack@.len() - idx,
            {
                key.push(stack[idx].kind);
                idx = idx + 1;
            }
            proof {
                assert(key@ =~= window_kinds(s, l as int));
            }
            if let Some(ins) = lookup(&key) {
                return Some((l, ins));
            }
        }
        l = l - 1;
    }
    None
}

/// The parse stack of the grammar engine, initially empty. Tokens are fed
/// one at a time and reduced greedily; what no rule ever matches stays.
pub struct Reducer {
    pub stack: Vec<Token>,
}

impl Reducer {
    /// A reducer with an empty parse stack.
    pub fn new() -> (r: Reducer)
        ensures
            r.stack@.len() == 0,
    {
        Reducer { stack: Vec::new() }
    }

    /// Run reductions to fixpoint: while any window within the search bound
    /// matches a rule, reduce the longest one, and return the fragments
    /// built, in order. On a stack admitting no match, the stack is left
    /// unchanged.
    pub fn reduce(&mut self) -> (nodes: Vec<ASTNode>)
        ensures
            models(final(self).stack@) == reduce_all(models(old(self).stack@)).0,
            node_models(nodes@) == reduce_all(models(old(self).stack@)).1,
            find_reduction(models(old(self).stack@)) is None ==> final(self).stack@ == old(
                self,
            ).stack@,
    {
        let mut nodes: Vec<ASTNode> = Vec::new();
        proof {
            assert(node_models(nodes@) + reduce_all(models(self.stack@)).1 =~= reduce_all(
                models(self.stack@),
            ).1);
        }
        loop
            invariant
                reduce_all(models(old(self).stack@)).0 == reduce_all(models(self.stack@)).0,
                reduce_all(models(old(self).stack@)).1 == node_models(nodes@) + reduce_all(
                    models(self.stack@),
                ).1,
                find_reduction(models(old(self).stack@)) is None ==> self.stack@ == old(
                    self,
                ).stack@,
            ensures
                find_reduction(models(self.stack@)) is None,
                reduce_all(models(old(self).stack@)).0 == reduce_all(models(self.stack@)).0,
                reduce_all(models(old(self).stack@)).1 == node_models(nodes@) + reduce_all(
                    models(self.stack@),
                ).1,
                find_reduction(models(old(self).stack@)) is None ==> self.stack@ == old(
                    self,
                ).stack@,
            decreases self.stack.len(),
        {
            let ghost s_before = models(self.stack@);
            let ghost nodes_before = nodes@;
            match find_match(&self.stack) {
                None => {
                    break ;
                },
                Some((l, ins)) => {
                    proof {
                        lemma_find_reduction_from_some(s_before, MAX_RULE_LEN as int, l as int);
                        lemma_lookup_matches(window_kinds(s_before, l as int));
                        assert(window_kinds(s_before, l as int).len() == l);
                        assert(l == 3);
                        assert(models(self.stack@).len() == self.stack@.len());
                    }
                    let node = if matches!(ins.make, TokenKind::BoolDeclaration) {
                        process_bool_declaration(&mut self.stack)
                    } else {
                        proof {
                            assert(ins.make == TokenKind::IntDeclaration);
                        }
                        process_int_declaration(&mut self.stack)
                    };
                    proof {
                        assert(reduce_step(s_before) == Some(
                            (models(self.stack@), node@),
                        ));
                        lemma_node_models_push(nodes_before, node);
                    }
                    nodes.push(node);
                    proof {
                        assert(reduce_all(s_before).1 == seq![node@] + reduce_all(
                            models(self.stack@),
                        ).1);
                        assert(node_models(nodes_before) + reduce_all(s_before).1
                            =~= node_models(nodes@) + reduce_all(models(self.stack@)).1);
                    }
                },
            }
        }
        proof {
            assert(reduce_all(models(self.stack@)).0 =~= models(self.stack@));
            assert(node_models(nodes@) + reduce_all(models(self.stack@)).1 =~= node_models(
                nodes@,
            ));
        }
        nodes
    }

    /// Feed one token: append it to the top of the stack, then reduce to
    /// fixpoint before the next token is accepted. Returns the fragments
    /// the feed caused, in the order the reductions fired.
    pub fn feed(&mut self, token: Token) -> (nodes: Vec<ASTNode>)
        ensures
            models(final(self).stack@) == spec_feed(models(old(self).stack@), token@).0,
            node_models(nodes@) == spec_feed(models(old(self).stack@), token@).1,
    {
        proof {
            lemma_models_push(self.stack@, token);
        }
        self.stack.push(token);
        self.reduce()
    }

    /// The first unexpected trailing token at end of input: the position of
    /// the first stack token that is neither a line-boundary marker nor a
    /// reduced non-terminal, if one exists. The engine leaves unmatched
    /// tokens on the stack silently while feeding, so callers surface this
    /// explicitly once the input is exhausted.
    #[verifier::loop_isolation(false)]
    pub fn first_unreduced(&self) -> (r: Option<usize>)
        ensures
            match r {
                Some(i) => {
                    &&& i < self.stack@.len()
                    &&& !spec_resolved(self.stack@[i as int].kind)
                    &&& forall|j: int| 0 <= j < i ==> spec_resolved(self.stack@[j].kind)
                },
                None => forall|j: int|
                    0 <= j < self.stack@.len() ==> spec_resolved(self.stack@[j].kind),
            },
    {
        let mut i: usize = 0;
        while i < self.stack.len()
            invariant
                i <= self.stack@.len(),
                forall|j: int| 0 <= j < i ==> spec_resolved(self.stack@[j].kind),
            decreases self.stack@.len() - i,
        {
            let resolved = match self.stack[i].kind {
                TokenKind::EndLine => true,
                TokenKind::IntDeclaration => true,
                TokenKind::BoolDeclaration => true,
                _ => false,
            };
            if !resolved {
                return Some(i);
            }
            i = i + 1;
        }
        None
    }
}

} // verus!
