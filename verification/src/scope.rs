use vstd::prelude::*;

use crate::syntax::{spec_get_id, Identifier};
use crate::token::TokenType;

verus! {

/// The semantic role bound to a declared name.
#[derive(Debug)]
pub enum Usage {
    Constant(String),
    Type(Option<String>),
    Program,
    Variable(String),
}

/// The mathematical shape of a `Usage`: the same variants over character
/// sequences.
pub enum UsageView {
    Constant(Seq<char>),
    Type(Option<Seq<char>>),
    Program,
    Variable(Seq<char>),
}

impl View for Usage {
    type V = UsageView;

    open spec fn view(&self) -> UsageView {
        match self {
            Usage::Constant(s) => UsageView::Constant(s@),
            Usage::Type(p) => UsageView::Type(
                match p {
                    Some(s) => Some(s@),
                    None => None,
                },
            ),
            Usage::Program => UsageView::Program,
            Usage::Variable(s) => UsageView::Variable(s@),
        }
    }
}

impl Clone for Usage {
    fn clone(&self) -> (r: Self)
        ensures
            r == *self,
    {
        match self {
            Usage::Constant(s) => Usage::Constant(s.clone()),
            Usage::Type(p) => Usage::Type(
                match p {
                    Some(s) => Some(s.clone()),
                    None => None,
                },
            ),
            Usage::Program => Usage::Program,
            Usage::Variable(s) => Usage::Variable(s.clone()),
        }
    }
}

/// One name bound in a scope.
#[derive(Debug)]
pub struct Binding {
    pub name: String,
    pub usage: Usage,
}

/// The map described by a sequence of bindings, later bindings winning.
pub open spec fn spec_bindings_map(s: Seq<Binding>) -> Map<Seq<char>, UsageView>
    decreases s.len(),
{
    if s.len() == 0 {
        Map::<Seq<char>, UsageView>::empty()
    } else {
        spec_bindings_map(s.drop_last()).insert(s.last().name@, s.last().usage@)
    }
}

/// A name is in the map exactly when some binding carries it.
pub proof fn lemma_bindings_map_dom(s: Seq<Binding>, n: Seq<char>)
    ensures
        spec_bindings_map(s).contains_key(n) <==> exists|i: int| 0 <= i < s.len() && s[i].name@ == n,
    decreases s.len(),
{
    if s.len() > 0 {
        lemma_bindings_map_dom(s.drop_last(), n);
        if s.last().name@ != n {
            assert(spec_bindings_map(s).contains_key(n) <==> spec_bindings_map(
                s.drop_last(),
            ).contains_key(n));
            if exists|i: int| 0 <= i < s.len() && s[i].name@ == n {
                let i = choose|i: int| 0 <= i < s.len() && s[i].name@ == n;
                assert(s.drop_last()[i] == s[i]);
            }
        }
    }
}

/// Under unique names, each binding is what the map holds for its name.
pub proof fn lemma_bindings_map_at(s: Seq<Binding>, i: int)
    requires
        forall|p: int, q: int|
            0 <= p < q < s.len() ==> s[p].name@ != s[q].name@,
        0 <= i < s.len(),
    ensures
        spec_bindings_map(s).contains_key(s[i].name@),
        spec_bindings_map(s)[s[i].name@] == s[i].usage@,
    decreases s.len(),
{
    if i == s.len() - 1 {
    } else {
        assert(s.drop_last()[i] == s[i]);
        lemma_bindings_map_at(s.drop_last(), i);
        assert(s.last().name@ != s[i].name@);
    }
}

/// One scope frame: a mapping from identifier name to its usage, with each
/// name bound at most once.
#[derive(Debug)]
pub struct Scope {
    pub bindings: Vec<Binding>,
}

impl View for Scope {
    type V = Map<Seq<char>, UsageView>;

    open spec fn view(&self) -> Map<Seq<char>, UsageView> {
        spec_bindings_map(self.bindings@)
    }
}

/// The base scope: the built-in type names and boolean constants.
pub open spec fn spec_base_scope() -> Map<Seq<char>, UsageView> {
    Map::<Seq<char>, UsageView>::empty().insert("integer"@, UsageView::Type(None)).insert(
        "real"@,
        UsageView::Type(None),
    ).insert("char"@, UsageView::Type(None)).insert("boolean"@, UsageView::Type(None)).insert(
        "true"@,
        UsageView::Constant("boolean"@),
    ).insert("false"@, UsageView::Constant("boolean"@))
}

impl Scope {
    /// Names are unique within the frame.
    pub open spec fn inv(self) -> bool {
        forall|p: int, q: int|
            0 <= p < q < self.bindings@.len() ==> self.bindings@[p].name@ != self.bindings@[q].name@
    }

    /// A fresh, empty scope frame.
    pub fn new() -> (r: Self)
        ensures
            r.inv(),
            r@ == Map::<Seq<char>, UsageView>::empty(),
    {
        Self { bindings: Vec::new() }
    }

    /// The outermost scope frame, pre-populated with the built-in types
    /// `integer`, `real`, `char`, `boolean` and the constants `true` and
    /// `false`.
    pub fn default() -> (r: Self)
        ensures
            r.inv(),
            r@ == spec_base_scope(),
    {
        let mut bindings: Vec<Binding> = Vec::new();
        bindings.push(Binding { name: String::from_str("integer"), usage: Usage::Type(None) });
        bindings.push(Binding { name: String::from_str("real"), usage: Usage::Type(None) });
        bindings.push(Binding { name: String::from_str("char"), usage: Usage::Type(None) });
        bindings.push(Binding { name: String::from_str("boolean"), usage: Usage::Type(None) });
        bindings.push(
            Binding { name: String::from_str("true"), usage: Usage::Constant(String::from_str("boolean")) },
        );
        bindings.push(
            Binding {
                name: String::from_str("false"),
                usage: Usage::Constant(String::from_str("boolean")),
            },
        );
        let r = Self { bindings };
        proof {
            reveal_strlit("integer");
            reveal_strlit("real");
            reveal_strlit("char");
            reveal_strlit("boolean");
            reveal_strlit("true");
            reveal_strlit("false");
            reveal_with_fuel(spec_bindings_map, 7);
            assert(r.bindings@.len() == 6);
            assert("integer"@[0] == 'i' && "boolean"@[0] == 'b' && "real"@[0] == 'r' && "char"@[0]
                == 'c' && "true"@[0] == 't' && "false"@[0] == 'f');
            assert(r@ =~= spec_base_scope());
        }
        r
    }

    /// Look a name up in this frame alone.
    pub fn get(&self, id: String) -> (r: Option<Usage>)
        requires
            self.inv(),
        ensures
            match r {
                Some(u) => self@.contains_key(id@) && self@[id@] == u@,
                None => !self@.contains_key(id@),
            },
    {
        let n = self.bindings.len();
        let mut i: usize = 0;
        while i < n
            invariant
                self.inv(),
                n == self.bindings@.len(),
                i <= n,
                forall|k: int| 0 <= k < i ==> self.bindings@[k].name@ != id@,
            decreases n - i,
        {
            if self.bindings[i].name == id {
                proof {
                    lemma_bindings_map_at(self.bindings@, i as int);
                }
                return Some(self.bindings[i].usage.clone());
            }
            i += 1;
        }
        proof {
            lemma_bindings_map_dom(self.bindings@, id@);
        }
        None
    }

    /// Bind an identifier's name in this frame, replacing any earlier binding
    /// of the same name; a token of any other kind binds nothing.
    pub fn insert(&mut self, id: &Identifier, usage: Usage)
        requires
            old(self).inv(),
        ensures
            final(self).inv(),
            id.id.token is Identifier ==> final(self)@ == old(self)@.insert(
                spec_get_id(*id),
                usage@,
            ),
            !(id.id.token is Identifier) ==> *final(self) == *old(self),
    {
        match &id.id.token {
            TokenType::Identifier(s) => {
                proof {
                    assert(id.id.token is Identifier);
                    assert(spec_get_id(*id) == s@);
                }
                let name = s.clone();
                let n = self.bindings.len();
                let mut i: usize = 0;
                while i < n
                    invariant
                        old(self).inv(),
                        self == old(self),
                        id.id.token is Identifier,
                        spec_get_id(*id) == name@,
                        n == self.bindings@.len(),
                        i <= n,
                        forall|k: int| 0 <= k < i ==> self.bindings@[k].name@ != name@,
                    decreases n - i,
                {
                    if self.bindings[i].name == name {
                        proof {
                            lemma_bindings_map_at(self.bindings@, i as int);
                        }
                        let ghost old_bindings = self.bindings@;
                        self.bindings.set(i, Binding { name, usage });
                        proof {
                            lemma_set_binding(old_bindings, i as int, self.bindings@);
                        }
                        return ;
                    }
                    i += 1;
                }
                let ghost old_bindings = self.bindings@;
                self.bindings.push(Binding { name, usage });
                proof {
                    assert(self.bindings@.drop_last() =~= old_bindings);
                }
            },
            _ => {},
        }
    }
}

/// Replacing the binding at `i` with one of the same name updates the map at
/// that name alone.
proof fn lemma_set_binding(s: Seq<Binding>, i: int, t: Seq<Binding>)
    requires
        forall|p: int, q: int| 0 <= p < q < s.len() ==> s[p].name@ != s[q].name@,
        0 <= i < s.len(),
        t.len() == s.len(),
        forall|k: int| 0 <= k < s.len() && k != i ==> t[k] == s[k],
        t[i].name@ == s[i].name@,
    ensures
        forall|p: int, q: int| 0 <= p < q < t.len() ==> t[p].name@ != t[q].name@,
        spec_bindings_map(t) == spec_bindings_map(s).insert(t[i].name@, t[i].usage@),
    decreases s.len(),
{
    if i == s.len() - 1 {
        assert(t.drop_last() =~= s.drop_last());
        assert(spec_bindings_map(t) =~= spec_bindings_map(s).insert(t[i].name@, t[i].usage@));
    } else {
        lemma_set_binding(s.drop_last(), i, t.drop_last());
        assert(t.last() == s.last());
        assert(spec_bindings_map(t) == spec_bindings_map(t.drop_last()).insert(
            t.last().name@,
            t.last().usage@,
        ));
        assert(spec_bindings_map(t) =~= spec_bindings_map(s).insert(t[i].name@, t[i].usage@));
    }
}

} // verus!
