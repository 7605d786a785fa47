//! The resolver: a name-to-expression lookup with left-to-right
//! precedence under composition, and the registry derived from the
//! fixtures in scope.

use vstd::prelude::*;
use crate::expr::{CaseArg, exprs_views, parsed_expr};
use crate::generate::FnParam;
use crate::parse::{TestCase, strings_views};
use crate::render::{dec_rep, join_args, push_dec, push_joined};

verus! {

/// What a resolver means: an ordered sequence of (name, expression text)
/// entries, looked up front to back.
pub open spec fn lookup(es: Seq<(Seq<char>, Seq<char>)>, name: Seq<char>) -> Option<Seq<char>>
    decreases es.len(),
{
    if es.len() == 0 {
        None
    } else if es[0].0 == name {
        Some(es[0].1)
    } else {
        lookup(es.drop_first(), name)
    }
}

/// A prefix in which no entry carries `name` does not affect the lookup.
pub proof fn lemma_lookup_skip(es: Seq<(Seq<char>, Seq<char>)>, name: Seq<char>, j: int)
    requires
        0 <= j <= es.len(),
        forall|k: int| 0 <= k < j ==> es[k].0 != name,
    ensures
        lookup(es, name) == lookup(es.skip(j), name),
    decreases j,
{
    if j > 0 {
        lemma_lookup_skip(es.drop_first(), name, j - 1);
        assert(es.drop_first().skip(j - 1) =~= es.skip(j));
    } else {
        assert(es.skip(0) =~= es);
    }
}

/// The pairing of declared argument names with one case's values, in
/// positional order; a length mismatch pairs only the shared prefix.
pub open spec fn zip_views(names: Seq<Seq<char>>, vals: Seq<Seq<char>>) -> Seq<
    (Seq<char>, Seq<char>),
> {
    Seq::new(
        if names.len() <= vals.len() {
            names.len()
        } else {
            vals.len()
        },
        |i: int| (names[i], vals[i]),
    )
}

/// Maps a parameter name to the expression that should initialize it.
/// Entries are searched in order: the first match wins, so chaining
/// places the left resolver's entries ahead of the right's.
pub struct Resolver {
    entries: Vec<(String, CaseArg)>,
}

impl View for Resolver {
    type V = Seq<(Seq<char>, Seq<char>)>;

    closed spec fn view(&self) -> Seq<(Seq<char>, Seq<char>)> {
        Seq::new(self.entries@.len(), |i: int| (self.entries@[i].0@, self.entries@[i].1@))
    }
}

impl Default for Resolver {
    /// The empty resolver: resolves no name at all.
    fn default() -> (r: Resolver)
        ensures
            r@ == Seq::<(Seq<char>, Seq<char>)>::empty(),
    {
        let r = Resolver { entries: Vec::new() };
        proof {
            assert(r@ =~= Seq::<(Seq<char>, Seq<char>)>::empty());
        }
        r
    }
}

impl Resolver {
    /// The resolver for one case: each declared argument name is bound to
    /// the case value in the same position.
    pub fn new(args: &Vec<String>, case: &TestCase) -> (r: Resolver)
        ensures
            r@ == zip_views(strings_views(args@), exprs_views(case.0@)),
    {
        let n: usize = if args.len() <= case.0.len() {
            args.len()
        } else {
            case.0.len()
        };
        let mut entries: Vec<(String, CaseArg)> = Vec::new();
        let mut i: usize = 0;
        while i < n
            invariant
                i <= n,
                n <= args@.len(),
                n <= case.0@.len(),
                entries@.len() == i,
                forall|k: int|
                    0 <= k < i ==> entries@[k].0 == args@[k] && entries@[k].1 == case.0@[k],
            decreases n - i,
        {
            let name_c = args[i].clone();
            let val_c = case.0[i].duplicate();
            entries.push((name_c, val_c));
            proof {
                assert(entries@[i as int].0 == args@[i as int]);
                assert(entries@[i as int].1 == case.0@[i as int]);
            }
            i = i + 1;
        }
        let r = Resolver { entries };
        proof {
            assert(r@ =~= zip_views(strings_views(args@), exprs_views(case.0@)));
        }
        r
    }

    /// Adds one binding behind the existing ones; earlier entries keep
    /// precedence.
    pub fn add(&mut self, name: String, expr: CaseArg)
        ensures
            final(self)@ == old(self)@.push((name@, expr@)),
    {
        let ghost before = self@;
        self.entries.push((name, expr));
        proof {
            assert(final(self)@ =~= before.push((name@, expr@)));
        }
    }

    /// Resolves a parameter to the expression bound to its name, if any;
    /// a parameter that is not a simple name binding resolves to nothing.
    pub fn resolve(&self, arg: &FnParam) -> (r: Option<CaseArg>)
        ensures
            match *arg {
                FnParam::Plain { name, .. } => match lookup(self@, name@) {
                    Some(t) => (r matches Some(c) && c@ == t),
                    None => r is None,
                },
                FnParam::Complex => r is None,
            },
    {
        match arg {
            FnParam::Plain { name, .. } => {
                let mut j: usize = 0;
                while j < self.entries.len()
                    invariant
                        *arg is Plain && arg->name == *name,
                        j <= self.entries@.len(),
                        forall|k: int| 0 <= k < j ==> self@[k].0 != name@,
                    decreases self.entries@.len() - j,
                {
                    if self.entries[j].0 == *name {
                        let out = self.entries[j].1.duplicate();
                        proof {
                            lemma_lookup_skip(self@, name@, j as int);
                            assert(self@[j as int].0 == name@);
                            assert(self@.skip(j as int)[0] == self@[j as int]);
                            assert(lookup(self@.skip(j as int), name@) == Some(
                                self@[j as int].1,
                            ));
                            assert(out@ == self@[j as int].1);
                            assert(lookup(self@, name@) == Some(out@));
                        }
                        return Some(out);
                    }
                    j = j + 1;
                }
                proof {
                    lemma_lookup_skip(self@, name@, j as int);
                    assert(self@.skip(j as int) =~= Seq::<(Seq<char>, Seq<char>)>::empty());
                }
                None
            },
            FnParam::Complex => None,
        }
    }

    /// Composes two resolvers: the left one's entries come first, so it
    /// takes precedence wherever both resolve a name.
    pub fn chain(&self, other: &Resolver) -> (r: Resolver)
        ensures
            r@ == self@ + other@,
    {
        let mut entries: Vec<(String, CaseArg)> = Vec::new();
        let mut i: usize = 0;
        while i < self.entries.len()
            invariant
                i <= self.entries@.len(),
                entries@.len() == i,
                forall|k: int|
                    0 <= k < i ==> entries@[k].0 == self.entries@[k].0 && entries@[k].1
                        == self.entries@[k].1,
            decreases self.entries@.len() - i,
        {
            entries.push((self.entries[i].0.clone(), self.entries[i].1.duplicate()));
            i = i + 1;
        }
        let n: usize = entries.len();
        let mut j: usize = 0;
        while j < other.entries.len()
            invariant
                n == self.entries@.len(),
                j <= other.entries@.len(),
                entries@.len() == n + j,
                forall|k: int|
                    0 <= k < n ==> entries@[k].0 == self.entries@[k].0 && entries@[k].1
                        == self.entries@[k].1,
                forall|k: int|
                    0 <= k < j ==> entries@[n + k].0 == other.entries@[k].0 && entries@[n + k].1
                        == other.entries@[k].1,
            decreases other.entries@.len() - j,
        {
            entries.push((other.entries[j].0.clone(), other.entries[j].1.duplicate()));
            j = j + 1;
        }
        let r = Resolver { entries };
        proof {
            assert(r@ =~= self@ + other@);
        }
        r
    }
}

/// A declared fixture: a name, and the argument expressions supplied for
/// calling it, which select a call-arity entry point.
pub struct Fixture {
    pub name: String,
    pub positional: Vec<CaseArg>,
}

/// The source text of the call expression a fixture resolves to:
/// `<name>::partial_<k>(<k positional arguments>)`.
pub open spec fn fixture_call_source(name: Seq<char>, positional: Seq<CaseArg>) -> Seq<char> {
    name + "::partial_"@ + dec_rep(positional.len()) + "("@ + join_args(positional) + ")"@
}

/// Builds the call expression that resolves a fixture, selected by the
/// number of positional arguments supplied for it; a fixture whose call
/// text does not parse as an expression yields nothing.
pub fn extract_resolve_expression(fixture: &Fixture) -> (r: Option<CaseArg>)
    ensures
        match parsed_expr(fixture_call_source(fixture.name@, fixture.positional@)) {
            Some(t) => r is Some && r->0@ == t,
            None => r is None,
        },
{
    let mut src = fixture.name.clone();
    src.append("::partial_");
    push_dec(&mut src, fixture.positional.len());
    src.append("(");
    push_joined(&mut src, &fixture.positional);
    src.append(")");
    match crate::expr::parse_expression(src.as_str()) {
        Ok(c) => Some(c),
        Err(_) => None,
    }
}

/// The registry entries derived from a sequence of fixtures, in
/// declaration order; a fixture whose call text does not parse is
/// skipped rather than aborting the whole registry.
pub open spec fn registry_views(fs: Seq<Fixture>) -> Seq<(Seq<char>, Seq<char>)>
    decreases fs.len(),
{
    if fs.len() == 0 {
        Seq::empty()
    } else {
        (match parsed_expr(fixture_call_source(fs[0].name@, fs[0].positional@)) {
            Some(t) => seq![(fs[0].name@, t)],
            None => Seq::empty(),
        }) + registry_views(fs.drop_first())
    }
}

fn fixture_resolver_from(fixtures: &Vec<Fixture>, i: usize) -> (r: Resolver)
    requires
        i <= fixtures@.len(),
    ensures
        r@ == registry_views(fixtures@.skip(i as int)),
    decreases fixtures@.len() - i,
{
    if i < fixtures.len() {
        let rest = fixture_resolver_from(fixtures, i + 1);
        proof {
            assert(fixtures@.skip(i as int).drop_first() =~= fixtures@.skip(i + 1));
            assert(fixtures@.skip(i as int)[0] == fixtures@[i as int]);
        }
        match extract_resolve_expression(&fixtures[i]) {
            Some(expr) => {
                let mut head = Resolver { entries: Vec::new() };
                proof {
                    assert(head@ =~= Seq::<(Seq<char>, Seq<char>)>::empty());
                }
                head.add(fixtures[i].name.clone(), expr);
                let r = head.chain(&rest);
                proof {
                    assert(head@ =~= seq![
                        (
                            fixtures@[i as int].name@,
                            parsed_expr(
                                fixture_call_source(
                                    fixtures@[i as int].name@,
                                    fixtures@[i as int].positional@,
                                ),
                            )->0,
                        ),
                    ]);
                    assert(r@ =~= registry_views(fixtures@.skip(i as int)));
                }
                r
            },
            None => {
                proof {
                    assert(rest@ =~= registry_views(fixtures@.skip(i as int)));
                }
                rest
            },
        }
    } else {
        let r = Resolver { entries: Vec::new() };
        proof {
            assert(fixtures@.skip(i as int) =~= Seq::<Fixture>::empty());
            assert(r@ =~= registry_views(fixtures@.skip(i as int)));
        }
        r
    }
}

/// Derives a resolver from the fixtures in scope: each fixture's name is
/// bound to its call-arity entry point, in declaration order.
pub fn fixture_resolver(fixtures: &Vec<Fixture>) -> (r: Resolver)
    ensures
        r@ == registry_views(fixtures@),
{
    let r = fixture_resolver_from(fixtures, 0);
    proof {
        assert(fixtures@.skip(0) =~= fixtures@);
    }
    r
}

} // verus!
