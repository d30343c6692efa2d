use vstd::prelude::*;
use crate::abstraction::{AbsError, Combinator};
use crate::extraction::{comb_name, has_combinators, walk};
use crate::book::{ids_below, is_single_rule, lookup, Definition, DefinitionBook, Rule};
use crate::term::{SpecTerm, Term};

verus! {

pub open spec fn svar(n: Seq<char>) -> SpecTerm {
    SpecTerm::Var(n)
}

pub open spec fn slam(n: Seq<char>, b: SpecTerm) -> SpecTerm {
    SpecTerm::Lam(Some(n), Box::new(b))
}

pub open spec fn sapp(f: SpecTerm, a: SpecTerm) -> SpecTerm {
    SpecTerm::App(Box::new(f), Box::new(a))
}

/// `λx.λy.λz.body`
pub open spec fn xyz(body: SpecTerm) -> SpecTerm {
    slam("x"@, slam("y"@, slam("z"@, body)))
}

/// `λd.λx.λy.λz.(d f) a` for a body `f a`.
pub open spec fn dxyz(body: SpecTerm) -> SpecTerm {
    match body {
        SpecTerm::App(f, a) => slam("d"@, xyz(sapp(sapp(svar("d"@), *f), *a))),
        _ => slam("d"@, xyz(body)),
    }
}

/// `x (y z)`
pub open spec fn b_body() -> SpecTerm {
    sapp(svar("x"@), sapp(svar("y"@), svar("z"@)))
}

/// `(x z) y`
pub open spec fn c_body() -> SpecTerm {
    sapp(sapp(svar("x"@), svar("z"@)), svar("y"@))
}

/// `(x z) (y z)`
pub open spec fn s_body() -> SpecTerm {
    sapp(sapp(svar("x"@), svar("z"@)), sapp(svar("y"@), svar("z"@)))
}

/// The closed definition body of each combinator.
pub open spec fn comb_body(c: Combinator) -> SpecTerm {
    match c {
        Combinator::K => slam("x"@, slam("y"@, svar("x"@))),
        Combinator::I => slam("x"@, svar("x"@)),
        Combinator::B => xyz(b_body()),
        Combinator::B_ => dxyz(b_body()),
        Combinator::C => xyz(c_body()),
        Combinator::C_ => dxyz(c_body()),
        Combinator::S => xyz(s_body()),
        Combinator::S_ => dxyz(s_body()),
    }
}

/// The order in which the combinators are registered.
pub open spec fn comb_at(i: int) -> Combinator {
    if i == 0 {
        Combinator::K
    } else if i == 1 {
        Combinator::I
    } else if i == 2 {
        Combinator::B
    } else if i == 3 {
        Combinator::B_
    } else if i == 4 {
        Combinator::C
    } else if i == 5 {
        Combinator::C_
    } else if i == 6 {
        Combinator::S
    } else {
        Combinator::S_
    }
}

/// The names added by one registration, in order.
pub open spec fn comb_names() -> Seq<Seq<char>> {
    Seq::new(8, |i: int| comb_name(comb_at(i)))
}

/// `defs` are the eight combinator definitions, numbered from `first`.
pub open spec fn are_combinators(defs: Seq<Definition>, first: nat) -> bool {
    &&& defs.len() == 8
    &&& forall|i: int|
        0 <= i < 8 ==> #[trigger] is_single_rule(
            defs[i],
            (first + i) as usize,
            comb_body(comb_at(i)),
        )
}

proof fn lemma_lookup_suffix(names: Seq<Seq<char>>, extra: Seq<Seq<char>>, k: int)
    requires
        0 <= k < extra.len(),
    ensures
        lookup(names + extra, extra[k]) is Some,
    decreases extra.len(),
{
    let all = names + extra;
    if all.last() != extra[k] {
        assert(k < extra.len() - 1);
        assert(all.drop_last() =~= names + extra.drop_last());
        lemma_lookup_suffix(names, extra.drop_last(), k);
    }
}

/// After one registration every combinator name resolves.
pub proof fn lemma_registered_resolve(names: Seq<Seq<char>>)
    ensures
        has_combinators(names + comb_names()),
{
    assert forall|c: Combinator| #[trigger] lookup(names + comb_names(), comb_name(c)) is Some by {
        let k: int = match c {
            Combinator::K => 0,
            Combinator::I => 1,
            Combinator::B => 2,
            Combinator::B_ => 3,
            Combinator::C => 4,
            Combinator::C_ => 5,
            Combinator::S => 6,
            Combinator::S_ => 7,
        };
        assert(comb_names()[k] == comb_name(c));
        lemma_lookup_suffix(names, comb_names(), k);
    }
}

fn xyz_lambda(body: Term) -> (r: Term)
    ensures
        r@ == xyz(body@),
{
    Term::lam(Some("x"), Term::lam(Some("y"), Term::lam(Some("z"), body)))
}

fn dxyz_lambda(body: Term) -> (r: Term)
    ensures
        r@ == dxyz(body@),
{
    match body {
        Term::App { fun, arg } => Term::lam(
            Some("d"),
            xyz_lambda(Term::app(Term::app(Term::var("d"), *fun), *arg)),
        ),
        other => Term::lam(Some("d"), xyz_lambda(other)),
    }
}

fn b_term() -> (r: Term)
    ensures
        r@ == b_body(),
{
    Term::app(Term::var("x"), Term::app(Term::var("y"), Term::var("z")))
}

fn c_term() -> (r: Term)
    ensures
        r@ == c_body(),
{
    Term::app(Term::app(Term::var("x"), Term::var("z")), Term::var("y"))
}

fn s_term() -> (r: Term)
    ensures
        r@ == s_body(),
{
    Term::app(Term::app(Term::var("x"), Term::var("z")), Term::app(Term::var("y"), Term::var("z")))
}

impl DefinitionBook {
    /// Registers the eight combinators under fresh ids and returns their
    /// definitions, which are not yet added to the book.
    pub fn register_combinators(&mut self) -> (r: Vec<Definition>)
        requires
            old(self).def_names@.len() + 8 <= usize::MAX,
        ensures
            final(self).defs == old(self).defs,
            final(self).def_names@ == old(self).def_names@ + comb_names(),
            are_combinators(r@, old(self).def_names@.len()),
            old(self).wf() ==> final(self).wf(),
            old(self).wf() ==> forall|i: int, k: int|
                0 <= i < 8 && 0 <= k < old(self).defs@.len() ==> #[trigger] r@[i].def_id
                    != #[trigger] old(self).defs@[k].def_id,
    {
        let ghost n0 = self.def_names@.len();
        let mut combinators: Vec<Definition> = Vec::new();
        combinators.push(self.register("_K", Term::lam(Some("x"), Term::lam(Some("y"), Term::var("x")))));
        combinators.push(self.register("_I", Term::lam(Some("x"), Term::var("x"))));
        combinators.push(self.register("_B", xyz_lambda(b_term())));
        combinators.push(self.register("_B_", dxyz_lambda(b_term())));
        combinators.push(self.register("_C", xyz_lambda(c_term())));
        combinators.push(self.register("_C_", dxyz_lambda(c_term())));
        combinators.push(self.register("_S", xyz_lambda(s_term())));
        combinators.push(self.register("_S_", dxyz_lambda(s_term())));
        proof {
            assert(self.def_names@ =~= old(self).def_names@ + comb_names());
            assert forall|i: int| 0 <= i < 8 implies #[trigger] is_single_rule(
                combinators@[i],
                (n0 + i) as usize,
                comb_body(comb_at(i)),
            ) by {}
            assert forall|i: int, k: int|
                0 <= i < 8 && 0 <= k < old(self).defs@.len() && old(self).wf() implies #[trigger] combinators@[i].def_id
                    != #[trigger] old(self).defs@[k].def_id by {
                assert(is_single_rule(combinators@[i], (n0 + i) as usize, comb_body(comb_at(i))));
                assert(old(self).defs@[k].def_id < n0);
                self.def_names.lemma_len_bound();
            }
        }
        combinators
    }
}

/// A rule after the pass: same id, body walked.
pub open spec fn detached_rule(before: Rule, after: Rule, names: Seq<Seq<char>>) -> bool {
    &&& after.def_id == before.def_id
    &&& walk(before.body@, true, names) == Ok::<SpecTerm, AbsError>(after.body@)
}

/// A definition after the pass: same id, each rule detached.
pub open spec fn detached_def(before: Definition, after: Definition, names: Seq<Seq<char>>) -> bool {
    &&& after.def_id == before.def_id
    &&& after.rules@.len() == before.rules@.len()
    &&& forall|j: int|
        0 <= j < before.rules@.len() ==> #[trigger] detached_rule(
            before.rules@[j],
            after.rules@[j],
            names,
        )
}

/// Definition `i` after a pass that stopped at rule `j0` of definition `i0`:
/// same id and rule count; the rules before that point are detached, the
/// others are as they were.
pub open spec fn stopped_def(
    before: Definition,
    after: Definition,
    i: int,
    i0: int,
    j0: int,
    names: Seq<Seq<char>>,
) -> bool {
    &&& after.def_id == before.def_id
    &&& after.rules@.len() == before.rules@.len()
    &&& forall|j: int|
        0 <= j < before.rules@.len() ==> if i < i0 || (i == i0 && j < j0) {
            #[trigger] detached_rule(before.rules@[j], after.rules@[j], names)
        } else {
            after.rules@[j].def_id == before.rules@[j].def_id && after.rules@[j].body@
                == before.rules@[j].body@
        }
}

/// The definitions after a pass that stopped at rule `j0` of definition `i0`.
pub open spec fn stopped_at(
    before: Seq<Definition>,
    after: Seq<Definition>,
    i0: int,
    j0: int,
    names: Seq<Seq<char>>,
) -> bool {
    &&& 0 <= i0 < before.len()
    &&& 0 <= j0 < before[i0].rules@.len()
    &&& after.len() == before.len()
    &&& forall|i: int|
        0 <= i < before.len() ==> #[trigger] stopped_def(before[i], after[i], i, i0, j0, names)
}

/// The walk succeeds on every rule body.
pub open spec fn rules_walk_ok(defs: Seq<Definition>, names: Seq<Seq<char>>) -> bool {
    forall|i: int, j: int|
        0 <= i < defs.len() && 0 <= j < defs[i].rules@.len() ==> #[trigger] walk(
            defs[i].rules@[j].body@,
            true,
            names,
        ) is Ok
}

impl DefinitionBook {
    /// The pass: registers the combinators, extracts the lambdas of every rule
    /// body in place, then appends the combinator definitions. It stops at the
    /// first rule whose walk fails.
    pub fn detach_combinators(&mut self) -> (r: Result<(), AbsError>)
        requires
            old(self).def_names@.len() + 8 <= usize::MAX,
        ensures
            final(self).def_names@ == old(self).def_names@ + comb_names(),
            r is Ok <==> rules_walk_ok(old(self).defs@, old(self).def_names@ + comb_names()),
            r is Ok ==> {
                &&& final(self).defs@.len() == old(self).defs@.len() + 8
                &&& forall|i: int|
                    0 <= i < old(self).defs@.len() ==> #[trigger] detached_def(
                        old(self).defs@[i],
                        final(self).defs@[i],
                        old(self).def_names@ + comb_names(),
                    )
                &&& are_combinators(
                    final(self).defs@.subrange(
                        old(self).defs@.len() as int,
                        old(self).defs@.len() + 8 as int,
                    ),
                    old(self).def_names@.len(),
                )
                &&& (old(self).wf() ==> final(self).wf())
            },
            r is Err ==> exists|i: int, j: int|
                #[trigger] stopped_at(
                    old(self).defs@,
                    final(self).defs@,
                    i,
                    j,
                    old(self).def_names@ + comb_names(),
                ) && walk(old(self).defs@[i].rules@[j].body@, true, old(self).def_names@ + comb_names())
                    == Err::<SpecTerm, AbsError>(r->Err_0),
    {
        let mut comb = self.register_combinators();
        let ghost names = self.def_names@;
        let ghost start = self.defs@;
        proof {
            lemma_registered_resolve(old(self).def_names@);
        }
        let n = self.defs.len();
        let mut i: usize = 0;
        while i < n
            invariant
                self.def_names@ == names,
                names == old(self).def_names@ + comb_names(),
                has_combinators(names),
                start == old(self).defs@,
                are_combinators(comb@, old(self).def_names@.len()),
                n == start.len(),
                self.defs@.len() == n,
                i <= n,
                forall|k: int| 0 <= k < i ==> #[trigger] detached_def(start[k], self.defs@[k], names),
                forall|k: int| i <= k < n ==> #[trigger] self.defs@[k] == start[k],
            decreases n - i,
        {
            let m = self.defs[i].rules.len();
            let mut j: usize = 0;
            let ghost outer = self.defs@;
            while j < m
                invariant
                    self.def_names@ == names,
                    names == old(self).def_names@ + comb_names(),
                    has_combinators(names),
                    start == old(self).defs@,
                    are_combinators(comb@, old(self).def_names@.len()),
                    n == start.len(),
                    self.defs@.len() == n,
                    i < n,
                    m == start[i as int].rules@.len(),
                    j <= m,
                    outer.len() == n,
                    outer[i as int] == start[i as int],
                    forall|k: int| 0 <= k < i ==> #[trigger] detached_def(start[k], outer[k], names),
                    forall|k: int| i < k < n ==> #[trigger] outer[k] == start[k],
                    forall|k: int|
                        0 <= k < n && k != i ==> #[trigger] self.defs@[k] == outer[k],
                    self.defs@[i as int].def_id == start[i as int].def_id,
                    self.defs@[i as int].rules@.len() == m,
                    forall|jj: int|
                        0 <= jj < j ==> #[trigger] detached_rule(
                            start[i as int].rules@[jj],
                            self.defs@[i as int].rules@[jj],
                            names,
                        ),
                    forall|jj: int|
                        j <= jj < m ==> #[trigger] self.defs@[i as int].rules@[jj]
                            == start[i as int].rules@[jj],
                decreases m - j,
            {
                let res = self.defs[i].rules[j].body.abstract_lambdas(&self.def_names);
                match res {
                    Ok(()) => {},
                    Err(e) => {
                        proof {
                            assert(walk(start[i as int].rules@[j as int].body@, true, names) == Err::<
                                SpecTerm,
                                AbsError,
                            >(e));
                            assert forall|k: int| 0 <= k < start.len() implies #[trigger] stopped_def(
                                start[k],
                                self.defs@[k],
                                k,
                                i as int,
                                j as int,
                                names,
                            ) by {
                                if k < i {
                                    assert(detached_def(start[k], outer[k], names));
                                    assert(self.defs@[k] == outer[k]);
                                    assert forall|jj: int| 0 <= jj < start[k].rules@.len() implies #[trigger] detached_rule(
                                        start[k].rules@[jj],
                                        self.defs@[k].rules@[jj],
                                        names,
                                    ) by {}
                                } else if k > i {
                                    assert(self.defs@[k] == outer[k]);
                                } else {
                                    assert forall|jj: int| 0 <= jj < j implies #[trigger] detached_rule(
                                        start[k].rules@[jj],
                                        self.defs@[k].rules@[jj],
                                        names,
                                    ) by {}
                                }
                            }
                            assert(stopped_at(start, self.defs@, i as int, j as int, names));
                        }
                        return Err(e);
                    },
                }
                j += 1;
            }
            proof {
                assert(detached_def(start[i as int], self.defs@[i as int], names));
            }
            i += 1;
        }
        let ghost before_append = self.defs@;
        let ghost comb_v = comb@;
        self.defs.append(&mut comb);
        proof {
            assert(self.defs@.subrange(n as int, n + 8 as int) =~= comb_v);
            assert forall|a: int, b: int|
                0 <= a < start.len() && 0 <= b < start[a].rules@.len() implies #[trigger] walk(
                start[a].rules@[b].body@,
                true,
                names,
            ) is Ok by {
                assert(detached_def(start[a], self.defs@[a], names));
                assert(detached_rule(start[a].rules@[b], self.defs@[a].rules@[b], names));
            }
            if old(self).wf() {
                assert forall|k: int| 0 <= k < self.defs@.len() implies #[trigger] self.defs@[k].def_id
                    < names.len() by {
                    if k < n {
                        assert(detached_def(start[k], self.defs@[k], names));
                        assert(start[k].def_id < old(self).def_names@.len());
                    } else {
                        assert(self.defs@[k] == comb_v[k - n]);
                        assert(is_single_rule(
                            comb_v[k - n],
                            (old(self).def_names@.len() + (k - n)) as usize,
                            comb_body(comb_at(k - n)),
                        ));
                        self.def_names.lemma_len_bound();
                    }
                }
            }
            assert forall|k: int| 0 <= k < start.len() implies #[trigger] detached_def(
                start[k],
                self.defs@[k],
                names,
            ) by {
                assert(self.defs@[k] == before_append[k]);
            }
        }
        Ok(())
    }
}

} // verus!
