use vstd::prelude::*;

use crate::error::{CompilerError, ErrorType};
use crate::position::Position;
use crate::scope::{spec_base_scope, Scope, Usage, UsageView};
use crate::syntax::{
    Identifier,
    spec_expr_type, spec_get_id, Factor, SimpleExpression, SimpleTail, Term, TermTail,
    TypeDeclaration, VarAssignment, VarDeclaration,
};
use crate::text::str_eq;

verus! {

/// The scope stack as mathematics: innermost frame last.
pub type ScopeSeq = Seq<Map<Seq<char>, UsageView>>;

/// Look a name up through the scope stack, innermost frame first; the first
/// frame that binds the name wins.
pub open spec fn spec_find(scopes: ScopeSeq, n: Seq<char>) -> Option<UsageView>
    decreases scopes.len(),
{
    if scopes.len() == 0 {
        None
    } else if scopes.last().contains_key(n) {
        Some(scopes.last()[n])
    } else {
        spec_find(scopes.drop_last(), n)
    }
}

/// Scope law: a lookup fails exactly when no frame of the stack binds the
/// name. A name referenced before any enclosing scope declares it therefore
/// resolves to nothing, and `find_identifier` turns that into one
/// unknown-identifier error at the reference's position.
pub proof fn lemma_find_none_iff_unbound(scopes: ScopeSeq, n: Seq<char>)
    ensures
        spec_find(scopes, n) is None <==> forall|i: int|
            0 <= i < scopes.len() ==> !(#[trigger] scopes[i]).contains_key(n),
    decreases scopes.len(),
{
    if scopes.len() > 0 {
        lemma_find_none_iff_unbound(scopes.drop_last(), n);
        assert(forall|i: int|
            0 <= i < scopes.len() - 1 ==> scopes.drop_last()[i] == #[trigger] scopes[i]);
        assert(scopes[scopes.len() - 1] == scopes.last());
    }
}

/// Scope law: the first match wins. When a frame binds the name and no frame
/// above it does, the lookup returns that frame's binding.
pub proof fn lemma_find_innermost(scopes: ScopeSeq, n: Seq<char>, i: int)
    requires
        0 <= i < scopes.len(),
        scopes[i].contains_key(n),
        forall|j: int| i < j < scopes.len() ==> !(#[trigger] scopes[j]).contains_key(n),
    ensures
        spec_find(scopes, n) == Some(scopes[i][n]),
    decreases scopes.len(),
{
    if i == scopes.len() - 1 {
        assert(scopes.last() == scopes[i]);
    } else {
        assert(!scopes.last().contains_key(n));
        assert(scopes.drop_last()[i] == scopes[i]);
        assert(forall|j: int|
            i < j < scopes.len() - 1 ==> scopes.drop_last()[j] == #[trigger] scopes[j]);
        lemma_find_innermost(scopes.drop_last(), n, i);
    }
}

/// Scope law: a name just bound in the innermost frame resolves to its new
/// binding, so a declaration is usable from the moment it is checked in.
pub proof fn lemma_find_after_insert(scopes: ScopeSeq, n: Seq<char>, u: UsageView)
    requires
        scopes.len() >= 1,
    ensures
        spec_find(scopes.update(scopes.len() - 1, scopes.last().insert(n, u)), n) == Some(u),
{
    let updated = scopes.update(scopes.len() - 1, scopes.last().insert(n, u));
    assert(updated.last() == scopes.last().insert(n, u));
    assert(updated.last().contains_key(n));
}

/// The type-combination rule for two operand type names.
///
/// Identical names combine to themselves; `integer` and `real` combine to
/// `real` unless the merge is strong (then they clash); an empty second name
/// is a wildcard meaning "no constraint yet"; everything else clashes.
pub open spec fn spec_merge(t1: Seq<char>, t2: Seq<char>, strong: bool) -> Option<Seq<char>> {
    if (t1 == "integer"@ && t2 == "real"@) || (t1 == "real"@ && t2 == "integer"@) {
        if strong {
            None
        } else {
            Some("real"@)
        }
    } else if t1 == t2 {
        Some(t1)
    } else if t2 == Seq::<char>::empty() {
        Some(t1)
    } else {
        None
    }
}

/// Merge law: an empty second operand never constrains the first, so merging
/// any type name with the empty wildcard yields that name back, whether the
/// merge is strong or not.
pub proof fn lemma_merge_wildcard(x: Seq<char>, strong: bool)
    ensures
        spec_merge(x, Seq::<char>::empty(), strong) == Some(x),
{
    reveal_strlit("integer");
    reveal_strlit("real");
    assert("real"@.len() == 4);
    assert("integer"@.len() == 7);
}

/// The type name carried by a usage that denotes a value; a type name or the
/// program name denotes no value.
pub open spec fn spec_usage_value_type(u: UsageView) -> Option<Seq<char>> {
    match u {
        UsageView::Constant(s) => Some(s),
        UsageView::Variable(s) => Some(s),
        _ => None,
    }
}

/// The source position of a factor's first token; a parenthesized factor
/// reports the position of its leftmost inner factor.
pub open spec fn spec_factor_pos(f: Factor) -> Position
    decreases f,
{
    match f {
        Factor::Integer(t) => t.pos,
        Factor::Real(t) => t.pos,
        Factor::Identifier(id) => id.id.pos,
        Factor::Expression(e) => match *e {
            crate::syntax::Expression::Simple(se) => spec_factor_pos(se.term.factor),
            crate::syntax::Expression::Relational(re) => spec_factor_pos(re.first.term.factor),
        },
    }
}

/// The usage a factor resolves to: literals are constants of the fixed types,
/// an identifier resolves through the scope stack, a parenthesized expression
/// reports its already-resolved type.
pub open spec fn spec_factor_usage(f: Factor, scopes: ScopeSeq) -> Option<UsageView> {
    match f {
        Factor::Integer(_) => Some(UsageView::Constant("integer"@)),
        Factor::Real(_) => Some(UsageView::Constant("real"@)),
        Factor::Identifier(id) => spec_find(scopes, spec_get_id(id)),
        Factor::Expression(e) => Some(UsageView::Variable(spec_expr_type(*e))),
    }
}

/// The value type a factor contributes to a term, where it has one.
pub open spec fn spec_factor_value_type(f: Factor, scopes: ScopeSeq) -> Option<Seq<char>> {
    match spec_factor_usage(f, scopes) {
        Some(u) => spec_usage_value_type(u),
        None => None,
    }
}

/// The type of a factor followed by multiplicative continuations: each
/// continuation's factor type is merged, widening allowed, onto the type
/// resolved so far.
pub open spec fn spec_term_tail_type(
    first: Option<Seq<char>>,
    tail: Seq<TermTail>,
    scopes: ScopeSeq,
) -> Option<Seq<char>>
    decreases tail.len(),
{
    if tail.len() == 0 {
        first
    } else {
        match (
            spec_term_tail_type(first, tail.drop_last(), scopes),
            spec_factor_value_type(tail.last().factor, scopes),
        ) {
            (Some(a), Some(b)) => spec_merge(a, b, false),
            _ => None,
        }
    }
}

/// The resolved type of a whole term under a scope stack.
pub open spec fn spec_term_type(t: Term, scopes: ScopeSeq) -> Option<Seq<char>> {
    spec_term_tail_type(spec_factor_value_type(t.factor, scopes), t.tail@, scopes)
}

/// Once the fold over a term's continuations has failed on a prefix, the
/// fold over the whole tail fails too.
pub proof fn lemma_term_tail_none(
    first: Option<Seq<char>>,
    tail: Seq<TermTail>,
    scopes: ScopeSeq,
    i: int,
)
    requires
        0 <= i <= tail.len(),
        spec_term_tail_type(first, tail.take(i), scopes) is None,
    ensures
        spec_term_tail_type(first, tail, scopes) is None,
    decreases tail.len() - i,
{
    if i < tail.len() {
        assert(tail.take(i + 1).drop_last() =~= tail.take(i));
        assert(tail.take(i + 1).last() == tail[i]);
        lemma_term_tail_none(first, tail, scopes, i + 1);
    } else {
        assert(tail.take(i) =~= tail);
    }
}

/// The type of a term followed by additive continuations: each continuation
/// term's resolved type is merged, widening allowed, onto the type resolved
/// so far.
pub open spec fn spec_simple_tail_type(first: Seq<char>, tail: Seq<SimpleTail>) -> Option<
    Seq<char>,
>
    decreases tail.len(),
{
    if tail.len() == 0 {
        Some(first)
    } else {
        match spec_simple_tail_type(first, tail.drop_last()) {
            Some(a) => spec_merge(a, tail.last().term.term_type@, false),
            None => None,
        }
    }
}

/// The resolved type of a whole simple expression, from the stored types of
/// its terms.
pub open spec fn spec_simple_type(e: SimpleExpression) -> Option<Seq<char>> {
    spec_simple_tail_type(e.term.term_type@, e.tail@)
}

/// The semantic analyzer: owns the scope stack and offers declaration
/// checking, identifier lookup and type merging to the parser.
pub struct Analyzer {
    pub scopes: Vec<Scope>,
}

impl View for Analyzer {
    type V = ScopeSeq;

    open spec fn view(&self) -> ScopeSeq {
        self.scopes@.map_values(|s: Scope| s@)
    }
}

impl Analyzer {
    /// The stack always holds at least the base scope, and every frame binds
    /// each name at most once.
    pub open spec fn inv(self) -> bool {
        &&& self.scopes@.len() >= 1
        &&& forall|i: int| 0 <= i < self.scopes@.len() ==> (#[trigger] self.scopes@[i]).inv()
    }

    /// A fresh analyzer whose only frame is the base scope of built-in names.
    pub fn new() -> (r: Self)
        ensures
            r.inv(),
            r@ =~= seq![spec_base_scope()],
    {
        let mut scopes: Vec<Scope> = Vec::new();
        scopes.push(Scope::default());
        Self { scopes }
    }

    /// Push a fresh, empty scope frame.
    pub fn enter_scope(&mut self)
        requires
            old(self).inv(),
        ensures
            final(self).inv(),
            final(self)@ =~= old(self)@.push(Map::<Seq<char>, UsageView>::empty()),
    {
        self.scopes.push(Scope::new());
    }

    /// Pop the innermost scope frame, discarding its declarations. The base
    /// scope is never popped: callers balance this against `enter_scope`.
    pub fn leave_scope(&mut self)
        requires
            old(self).inv(),
            old(self)@.len() >= 2,
        ensures
            final(self).inv(),
            final(self)@ =~= old(self)@.drop_last(),
    {
        let _ = self.scopes.pop();
    }

    /// Check a declaration against the innermost frame alone: a name already
    /// bound there is a redeclaration error; otherwise the name is bound as a
    /// variable of the declared type and the declaration is returned
    /// unchanged.
    pub fn check_declaration(&mut self, decl: VarDeclaration) -> (r: Result<
        VarDeclaration,
        CompilerError,
    >)
        requires
            old(self).inv(),
        ensures
            final(self).inv(),
            match r {
                Ok(d) => {
                    &&& d == decl
                    &&& !old(self)@.last().contains_key(spec_get_id(decl.id))
                    &&& !(decl.id.id.token is Identifier) ==> final(self)@ =~= old(self)@
                    &&& decl.id.id.token is Identifier ==> final(self)@ =~= old(self)@.update(
                        old(self)@.len() - 1,
                        old(self)@.last().insert(
                            spec_get_id(decl.id),
                            UsageView::Variable(spec_get_id(decl.type_id)),
                        ),
                    )
                },
                Err(e) => {
                    &&& old(self)@.last().contains_key(spec_get_id(decl.id))
                    &&& final(self)@ =~= old(self)@
                    &&& e.err_type == ErrorType::Semantic
                    &&& e.description@ == "Redeclaration of "@ + spec_get_id(decl.id)
                    &&& e.pos == decl.id.id.pos
                },
            },
    {
        let name = decl.id.get_id();
        let last = self.scopes.len() - 1;
        let found = self.scopes[last].get(name);
        proof {
            assert(self.scopes@[last as int]@ == self@[last as int]);
            assert(self@.last() == self@[last as int]);
        }
        match found {
            Some(_) => Err(
                CompilerError::semantic(
                    String::from_str("Redeclaration of ").concat(decl.id.get_id().as_str()),
                    decl.id.id.pos,
                ),
            ),
            None => {
                let usage = Usage::Variable(decl.type_id.get_id());
                let ghost old_scopes = self.scopes@;
                self.scopes[last].insert(&decl.id, usage);
                proof {
                    assert(self.scopes@[last as int].inv());
                    assert(forall|i: int|
                        0 <= i < self.scopes@.len() && i != last ==> self.scopes@[i]
                            == old_scopes[i]);
                }
                Ok(decl)
            },
        }
    }

    /// Check a type alias declaration against the innermost frame alone, as
    /// `check_declaration` does, binding the name as a type with the given
    /// parent type name.
    pub fn check_type_declaration(&mut self, decl: TypeDeclaration) -> (r: Result<
        TypeDeclaration,
        CompilerError,
    >)
        requires
            old(self).inv(),
        ensures
            final(self).inv(),
            match r {
                Ok(d) => {
                    &&& d == decl
                    &&& !old(self)@.last().contains_key(spec_get_id(decl.id))
                    &&& !(decl.id.id.token is Identifier) ==> final(self)@ =~= old(self)@
                    &&& decl.id.id.token is Identifier ==> final(self)@ =~= old(self)@.update(
                        old(self)@.len() - 1,
                        old(self)@.last().insert(
                            spec_get_id(decl.id),
                            UsageView::Type(Some(spec_get_id(decl.parent))),
                        ),
                    )
                },
                Err(e) => {
                    &&& old(self)@.last().contains_key(spec_get_id(decl.id))
                    &&& final(self)@ =~= old(self)@
                    &&& e.err_type == ErrorType::Semantic
                    &&& e.description@ == "Redeclaration of "@ + spec_get_id(decl.id)
                    &&& e.pos == decl.id.id.pos
                },
            },
    {
        let name = decl.id.get_id();
        let last = self.scopes.len() - 1;
        let found = self.scopes[last].get(name);
        proof {
            assert(self.scopes@[last as int]@ == self@[last as int]);
            assert(self@.last() == self@[last as int]);
        }
        match found {
            Some(_) => Err(
                CompilerError::semantic(
                    String::from_str("Redeclaration of ").concat(decl.id.get_id().as_str()),
                    decl.id.id.pos,
                ),
            ),
            None => {
                let usage = Usage::Type(Some(decl.parent.get_id()));
                let ghost old_scopes = self.scopes@;
                self.scopes[last].insert(&decl.id, usage);
                proof {
                    assert(self.scopes@[last as int].inv());
                    assert(forall|i: int|
                        0 <= i < self.scopes@.len() && i != last ==> self.scopes@[i]
                            == old_scopes[i]);
                }
                Ok(decl)
            },
        }
    }

    /// Resolve an identifier through the scope stack, innermost frame first;
    /// a name bound nowhere is an unknown-identifier error at the
    /// identifier's position.
    pub fn find_identifier(&self, id: &Identifier) -> (r: Result<Usage, CompilerError>)
        requires
            self.inv(),
        ensures
            match r {
                Ok(u) => spec_find(self@, spec_get_id(*id)) == Some(u@),
                Err(e) => {
                    &&& spec_find(self@, spec_get_id(*id)) is None
                    &&& e.err_type == ErrorType::Semantic
                    &&& e.description@ == "Unknown identifier "@ + spec_get_id(*id)
                    &&& e.pos == id.id.pos
                },
            },
    {
        let name = id.get_id();
        let n = self.scopes.len();
        let mut i: usize = n;
        proof {
            assert(self@.take(n as int) =~= self@);
        }
        while i > 0
            invariant
                self.inv(),
                n == self.scopes@.len(),
                i <= n,
                name@ == spec_get_id(*id),
                spec_find(self@, spec_get_id(*id)) == spec_find(self@.take(i as int), name@),
            decreases i,
        {
            i = i - 1;
            let found = self.scopes[i].get(name.clone());
            proof {
                assert(self.scopes@[i as int]@ == self@[i as int]);
                assert(self@.take(i as int + 1).last() == self@[i as int]);
                assert(self@.take(i as int + 1).drop_last() =~= self@.take(i as int));
            }
            match found {
                Some(u) => {
                    return Ok(u);
                },
                None => {},
            }
        }
        proof {
            assert(self@.take(0) =~= Seq::<Map<Seq<char>, UsageView>>::empty());
        }
        Err(
            CompilerError::semantic(
                String::from_str("Unknown identifier ").concat(name.as_str()),
                id.id.pos,
            ),
        )
    }

    /// Combine two operand type names by the merge rule; a clash is a type
    /// mismatch error at the given position.
    pub fn merge_types(&self, type1: &String, type2: &String, pos: Position, strong: bool) -> (r:
        Result<String, CompilerError>)
        ensures
            match r {
                Ok(t) => spec_merge(type1@, type2@, strong) == Some(t@),
                Err(e) => {
                    &&& spec_merge(type1@, type2@, strong) is None
                    &&& e.err_type == ErrorType::Semantic
                    &&& e.description@ == "Type mismatch"@
                    &&& e.pos == pos
                },
            },
    {
        let int_real = (str_eq(type1.as_str(), "integer") && str_eq(type2.as_str(), "real")) || (
        str_eq(type1.as_str(), "real") && str_eq(type2.as_str(), "integer"));
        if int_real {
            if strong {
                Err(CompilerError::semantic(String::from_str("Type mismatch"), pos))
            } else {
                Ok(String::from_str("real"))
            }
        } else if str_eq(type1.as_str(), type2.as_str()) {
            Ok(type1.clone())
        } else if type2.as_str().unicode_len() == 0 {
            proof {
                assert(type2@ =~= Seq::<char>::empty());
            }
            Ok(type1.clone())
        } else {
            Err(CompilerError::semantic(String::from_str("Type mismatch"), pos))
        }
    }

    /// The usage a factor denotes: fixed constant types for literals, a scope
    /// lookup for an identifier, the stored type for a parenthesized
    /// expression.
    pub fn get_factor_type(&self, f: &Factor) -> (r: Result<Usage, CompilerError>)
        requires
            self.inv(),
        ensures
            match r {
                Ok(u) => spec_factor_usage(*f, self@) == Some(u@),
                Err(e) => {
                    &&& spec_factor_usage(*f, self@) is None
                    &&& e.err_type == ErrorType::Semantic
                    &&& match f {
                        Factor::Identifier(id) => e.description@ == "Unknown identifier "@
                            + spec_get_id(*id) && e.pos == id.id.pos,
                        _ => false,
                    }
                },
            },
    {
        match f {
            Factor::Real(_) => Ok(Usage::Constant(String::from_str("real"))),
            Factor::Integer(_) => Ok(Usage::Constant(String::from_str("integer"))),
            Factor::Identifier(id) => {
                let u = self.find_identifier(id)?;
                Ok(u)
            },
            Factor::Expression(e) => Ok(Usage::Variable(e.expr_type())),
        }
    }

    /// The value type a factor contributes to a term; a type name or the
    /// program name used as a value is a type mismatch at the given position.
    pub fn get_factor_value_type(&self, f: &Factor, pos: Position) -> (r: Result<
        String,
        CompilerError,
    >)
        requires
            self.inv(),
        ensures
            match r {
                Ok(t) => spec_factor_value_type(*f, self@) == Some(t@),
                Err(e) => {
                    &&& spec_factor_value_type(*f, self@) is None
                    &&& e.err_type == ErrorType::Semantic
                },
            },
    {
        let u = self.get_factor_type(f)?;
        match u {
            Usage::Constant(s) => Ok(s),
            Usage::Variable(s) => Ok(s),
            _ => Err(
                CompilerError::semantic(String::from_str("Expected a value, found a type or program name"), pos),
            ),
        }
    }

    /// The source position of a factor's first token; a parenthesized
    /// factor reports the position of its leftmost inner factor.
    pub fn factor_pos(&self, f: &Factor) -> (r: Position)
        ensures
            r == spec_factor_pos(*f),
        decreases f,
    {
        match f {
            Factor::Integer(t) => t.pos,
            Factor::Real(t) => t.pos,
            Factor::Identifier(id) => id.id.pos,
            Factor::Expression(e) => match &**e {
                crate::syntax::Expression::Simple(se) => self.factor_pos(&se.term.factor),
                crate::syntax::Expression::Relational(re) => self.factor_pos(
                    &re.first.term.factor,
                ),
            },
        }
    }

    /// The resolved type of a term, recomputed from its factors: the first
    /// factor's type merged, widening allowed, with each continuation's
    /// factor type in order.
    pub fn get_term_type(&self, t: &Term) -> (r: Result<String, CompilerError>)
        requires
            self.inv(),
        ensures
            match r {
                Ok(s) => spec_term_type(*t, self@) == Some(s@),
                Err(e) => {
                    &&& spec_term_type(*t, self@) is None
                    &&& e.err_type == ErrorType::Semantic
                },
            },
    {
        let first_pos = self.factor_pos(&t.factor);
        let mut acc = match self.get_factor_value_type(&t.factor, first_pos) {
            Ok(s) => s,
            Err(e) => {
                proof {
                    assert(t.tail@.take(0) =~= Seq::<TermTail>::empty());
                    lemma_term_tail_none(
                        spec_factor_value_type(t.factor, self@),
                        t.tail@,
                        self@,
                        0,
                    );
                }
                return Err(e);
            },
        };
        let n = t.tail.len();
        let mut i: usize = 0;
        while i < n
            invariant
                self.inv(),
                n == t.tail@.len(),
                i <= n,
                spec_term_tail_type(
                    spec_factor_value_type(t.factor, self@),
                    t.tail@.take(i as int),
                    self@,
                ) == Some(acc@),
            decreases n - i,
        {
            proof {
                assert(t.tail@.take(i as int + 1).drop_last() =~= t.tail@.take(i as int));
                assert(t.tail@.take(i as int + 1).last() == t.tail@[i as int]);
            }
            let f_pos = self.factor_pos(&t.tail[i].factor);
            let ft = match self.get_factor_value_type(&t.tail[i].factor, f_pos) {
                Ok(s) => s,
                Err(e) => {
                    proof {
                        lemma_term_tail_none(
                            spec_factor_value_type(t.factor, self@),
                            t.tail@,
                            self@,
                            i as int + 1,
                        );
                    }
                    return Err(e);
                },
            };
            let merged = match self.merge_types(&acc, &ft, f_pos, false) {
                Ok(s) => s,
                Err(e) => {
                    proof {
                        lemma_term_tail_none(
                            spec_factor_value_type(t.factor, self@),
                            t.tail@,
                            self@,
                            i as int + 1,
                        );
                    }
                    return Err(e);
                },
            };
            acc = merged;
            i += 1;
        }
        proof {
            assert(t.tail@.take(n as int) =~= t.tail@);
        }
        Ok(acc)
    }

    /// Validate an assignment: the target must resolve to a variable and the
    /// value's type must merge strongly with the variable's declared type; on
    /// success the assignment is returned unchanged.
    pub fn check_assignment(&self, a: VarAssignment) -> (r: Result<VarAssignment, CompilerError>)
        requires
            self.inv(),
        ensures
            match r {
                Ok(a2) => {
                    &&& a2 == a
                    &&& match spec_find(self@, spec_get_id(a.name)) {
                        Some(UsageView::Variable(s)) => spec_merge(
                            s,
                            spec_expr_type(a.value),
                            true,
                        ) is Some,
                        _ => false,
                    }
                },
                Err(e) => {
                    &&& e.err_type == ErrorType::Semantic
                    &&& e.pos == a.name.id.pos
                    &&& match spec_find(self@, spec_get_id(a.name)) {
                        None => e.description@ == "Unknown identifier "@ + spec_get_id(a.name),
                        Some(UsageView::Variable(s)) => spec_merge(
                            s,
                            spec_expr_type(a.value),
                            true,
                        ) is None && e.description@ == "Type mismatch"@,
                        Some(_) => e.description@ == "Assignment to a name that is not a variable"@,
                    }
                },
            },
    {
        let usage = self.find_identifier(&a.name)?;
        let value_type = a.value.expr_type();
        match usage {
            Usage::Variable(s) => {
                let _ = self.merge_types(&s, &value_type, a.name.id.pos, true)?;
                Ok(a)
            },
            _ => Err(
                CompilerError::semantic(
                    String::from_str("Assignment to a name that is not a variable"),
                    a.name.id.pos,
                ),
            ),
        }
    }

    /// Validate that a condition expression resolves to the expected type
    /// name; used to hold `if` and `while` conditions to `boolean`.
    pub fn check_expr(&self, e: &crate::syntax::Expression, expected: &str, pos: Position) -> (r:
        Result<(), CompilerError>)
        ensures
            match r {
                Ok(_) => spec_expr_type(*e) == expected@,
                Err(err) => {
                    &&& spec_expr_type(*e) != expected@
                    &&& err.err_type == ErrorType::Semantic
                    &&& err.description@ == "Type mismatch"@
                    &&& err.pos == pos
                },
            },
    {
        let et = e.expr_type();
        if str_eq(et.as_str(), expected) {
            Ok(())
        } else {
            Err(CompilerError::semantic(String::from_str("Type mismatch"), pos))
        }
    }
}

} // verus!
