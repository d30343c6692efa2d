use vstd::prelude::*;
use crate::book::DefNames;
use vstd::string::StringExecFns;
use crate::term::{channel, lemma_rename_size, occurs, rename, show_term, size, SpecTerm, Term};

verus! {

/// The eight primitive combinators.
#[allow(non_camel_case_types)]
#[derive(Clone, Copy, Debug, PartialEq, Eq, Structural)]
pub enum Combinator {
    K,
    I,
    B,
    C,
    S,
    B_,
    C_,
    S_,
}

/// The intermediate combinator algebra built while a binder is eliminated.
#[derive(Debug, PartialEq, Eq)]
pub enum AbsTerm {
    Term(Term),
    Comb(Combinator),
    App(Box<AbsTerm>, Box<AbsTerm>),
}

/// Mathematical model of an [`AbsTerm`].
pub enum SpecAbs {
    Term(SpecTerm),
    Comb(Combinator),
    App(Box<SpecAbs>, Box<SpecAbs>),
}

/// A construct that elimination does not handle.
#[derive(Clone, Copy, Debug, PartialEq, Eq, Structural)]
pub enum AbsError {
    /// A superposition had to be abstracted or walked.
    Superposition,
    /// A channel node was reached directly by elimination.
    Channel,
}

pub open spec fn abs_view(a: AbsTerm) -> SpecAbs
    decreases a,
{
    match a {
        AbsTerm::Term(t) => SpecAbs::Term(t@),
        AbsTerm::Comb(c) => SpecAbs::Comb(c),
        AbsTerm::App(f, x) => SpecAbs::App(Box::new(abs_view(*f)), Box::new(abs_view(*x))),
    }
}

impl View for AbsTerm {
    type V = SpecAbs;

    open spec fn view(&self) -> SpecAbs {
        abs_view(*self)
    }
}

pub open spec fn ap(f: SpecAbs, x: SpecAbs) -> SpecAbs {
    SpecAbs::App(Box::new(f), Box::new(x))
}

pub open spec fn comb(c: Combinator) -> SpecAbs {
    SpecAbs::Comb(c)
}

pub open spec fn leaf(t: SpecTerm) -> SpecAbs {
    SpecAbs::Term(t)
}

/// `c x y`
pub open spec fn call2(c: Combinator, x: SpecAbs, y: SpecAbs) -> SpecAbs {
    ap(ap(comb(c), x), y)
}

/// `c x y z`
pub open spec fn call3(c: Combinator, x: SpecAbs, y: SpecAbs, z: SpecAbs) -> SpecAbs {
    ap(call2(c, x, y), z)
}

/// A combinator applied, left to right, to each argument in turn.
pub open spec fn call_spec(c: Combinator, args: Seq<SpecAbs>) -> SpecAbs
    decreases args.len(),
{
    if args.len() == 0 {
        comb(c)
    } else {
        ap(call_spec(c, args.drop_last()), args.last())
    }
}

/// Free occurrence of `name` in a combinator expression.
pub open spec fn aoccurs(a: SpecAbs, name: Seq<char>) -> bool
    decreases a,
{
    match a {
        SpecAbs::Term(t) => occurs(t, name),
        SpecAbs::Comb(_) => false,
        SpecAbs::App(f, x) => aoccurs(*f, name) || aoccurs(*x, name),
    }
}

/// Nodes of the combinator tree, not counting inside opaque terms.
pub open spec fn asize(a: SpecAbs) -> nat
    decreases a,
{
    match a {
        SpecAbs::App(f, x) => 1 + asize(*f) + asize(*x),
        _ => 1,
    }
}

/// The size of the largest opaque term in the tree.
pub open spec fn max_leaf(a: SpecAbs) -> nat
    decreases a,
{
    match a {
        SpecAbs::Term(t) => size(t),
        SpecAbs::Comb(_) => 0,
        SpecAbs::App(f, x) => if max_leaf(*f) >= max_leaf(*x) {
            max_leaf(*f)
        } else {
            max_leaf(*x)
        },
    }
}

/// Elimination of `name` from a term, case by case.
pub open spec fn abs_t(t: SpecTerm, name: Seq<char>) -> Result<SpecAbs, AbsError>
    decreases size(t), 2nat, 0nat,
{
    match t {
        SpecTerm::Lam(Some(n), bod) => if channel(*bod, n, false) {
            Ok(leaf(t))
        } else {
            match abs_t(*bod, n) {
                Ok(r) => if max_leaf(r) < size(t) {
                    abs_a(r, name)
                } else {
                    Ok(r)
                },
                Err(e) => Err(e),
            }
        },
        SpecTerm::Lam(None, bod) => match abs_t(*bod, name) {
            Ok(r) => Ok(ap(comb(Combinator::K), r)),
            Err(e) => Err(e),
        },
        _ => if !occurs(t, name) {
            Ok(ap(comb(Combinator::K), leaf(t)))
        } else {
            match t {
                SpecTerm::Var(_) => Ok(comb(Combinator::I)),
                SpecTerm::App(fun, arg) => abs_app(*fun, *arg, name),
                SpecTerm::Dup(Some(f), Some(s), val, nxt) => {
                    let nxt2 = rename(*nxt, s, f);
                    if size(nxt2) == size(*nxt) {
                        match abs_if(nxt2, f) {
                            Ok(r) => let_tail(r, *val, size(t), name),
                            Err(e) => Err(e),
                        }
                    } else {
                        Ok(leaf(t))
                    }
                },
                SpecTerm::Dup(Some(f), None, val, nxt) => match abs_if(*nxt, f) {
                    Ok(r) => let_tail(r, *val, size(t), name),
                    Err(e) => Err(e),
                },
                SpecTerm::Dup(None, Some(s), val, nxt) => match abs_if(*nxt, s) {
                    Ok(r) => let_tail(r, *val, size(t), name),
                    Err(e) => Err(e),
                },
                SpecTerm::Dup(None, None, _, nxt) => abs_t(*nxt, name),
                SpecTerm::Let(n, val, nxt) => match abs_if(*nxt, n) {
                    Ok(r) => let_tail(r, *val, size(t), name),
                    Err(e) => Err(e),
                },
                SpecTerm::Chn(_, _) => Err(AbsError::Channel),
                SpecTerm::Sup(_, _) => Err(AbsError::Superposition),
                _ => Ok(leaf(t)),
            }
        },
    }
}

/// A let, read as the function of its binder applied to the bound value.
pub open spec fn let_tail(r: SpecAbs, val: SpecTerm, bound: nat, name: Seq<char>) -> Result<
    SpecAbs,
    AbsError,
>
    decreases bound, 1nat, 0nat,
{
    let x = ap(r, leaf(val));
    if max_leaf(x) < bound {
        abs_a(x, name)
    } else {
        Ok(x)
    }
}

/// Elimination of `name` from `t` when it occurs there; `t` as it is otherwise.
pub open spec fn abs_if(t: SpecTerm, name: Seq<char>) -> Result<SpecAbs, AbsError>
    decreases size(t), 3nat, 0nat,
{
    if occurs(t, name) {
        abs_t(t, name)
    } else {
        Ok(leaf(t))
    }
}

/// Elimination of `name` from an application in which it occurs.
pub open spec fn abs_app(fun: SpecTerm, arg: SpecTerm, name: Seq<char>) -> Result<
    SpecAbs,
    AbsError,
>
    decreases 1 + size(fun) + size(arg), 1nat, 0nat,
{
    let bound = 1 + size(fun) + size(arg);
    if arg == SpecTerm::Var(name) && !occurs(fun, name) {
        Ok(leaf(fun))
    } else {
        match fun {
            SpecTerm::Lam(Some(n), bod) => if channel(*bod, n, false) {
                match abs_t(arg, name) {
                    Ok(ra) => Ok(ap(leaf(fun), ra)),
                    Err(e) => Err(e),
                }
            } else {
                match abs_t(*bod, n) {
                    Ok(rf) => {
                        let x = ap(rf, leaf(arg));
                        if max_leaf(x) < bound {
                            abs_a(x, name)
                        } else {
                            Ok(x)
                        }
                    },
                    Err(e) => Err(e),
                }
            },
            _ => match arg {
                SpecTerm::Lam(Some(n), bod) => if channel(*bod, n, false) {
                    match abs_t(fun, name) {
                        Ok(rf) => Ok(ap(rf, leaf(arg))),
                        Err(e) => Err(e),
                    }
                } else {
                    match abs_t(*bod, n) {
                        Ok(ra) => {
                            let x = ap(leaf(fun), ra);
                            if max_leaf(x) < bound {
                                abs_a(x, name)
                            } else {
                                Ok(x)
                            }
                        },
                        Err(e) => Err(e),
                    }
                },
                _ => if fun is App && !occurs(*fun->App_0, name) {
                    let f = *fun->App_0;
                    let a1 = *fun->App_1;
                    if !occurs(a1, name) {
                        match abs_t(arg, name) {
                            Ok(r2) => Ok(call3(Combinator::B_, leaf(f), leaf(a1), r2)),
                            Err(e) => Err(e),
                        }
                    } else if !occurs(arg, name) {
                        match abs_t(a1, name) {
                            Ok(r1) => Ok(call3(Combinator::C_, leaf(f), r1, leaf(arg))),
                            Err(e) => Err(e),
                        }
                    } else {
                        match abs_t(a1, name) {
                            Ok(r1) => match abs_t(arg, name) {
                                Ok(r2) => Ok(call3(Combinator::S_, leaf(f), r1, r2)),
                                Err(e) => Err(e),
                            },
                            Err(e) => Err(e),
                        }
                    }
                } else if !occurs(fun, name) {
                    match abs_t(arg, name) {
                        Ok(ra) => Ok(call2(Combinator::B, leaf(fun), ra)),
                        Err(e) => Err(e),
                    }
                } else if !occurs(arg, name) {
                    match abs_t(fun, name) {
                        Ok(rf) => Ok(call2(Combinator::C, rf, leaf(arg))),
                        Err(e) => Err(e),
                    }
                } else {
                    match abs_t(fun, name) {
                        Ok(rf) => match abs_t(arg, name) {
                            Ok(ra) => Ok(call2(Combinator::S, rf, ra)),
                            Err(e) => Err(e),
                        },
                        Err(e) => Err(e),
                    }
                },
            },
        }
    }
}

/// Elimination of `name` from a combinator expression.
pub open spec fn abs_a(a: SpecAbs, name: Seq<char>) -> Result<SpecAbs, AbsError>
    decreases max_leaf(a), 3nat, asize(a)
    via abs_a_decreases
{
    match a {
        SpecAbs::Term(t) => abs_t(t, name),
        SpecAbs::Comb(c) => Ok(ap(comb(Combinator::K), comb(c))),
        SpecAbs::App(fun, arg) => if *arg == leaf(SpecTerm::Var(name)) && !aoccurs(*fun, name) {
            Ok(*fun)
        } else if !aoccurs(a, name) {
            Ok(ap(comb(Combinator::K), a))
        } else if *fun is App && !aoccurs(*fun->App_0, name) {
            let f = *fun->App_0;
            let a1 = *fun->App_1;
            if !aoccurs(a1, name) {
                match abs_a(*arg, name) {
                    Ok(r2) => Ok(call3(Combinator::B_, f, a1, r2)),
                    Err(e) => Err(e),
                }
            } else if !aoccurs(*arg, name) {
                match abs_a(a1, name) {
                    Ok(r1) => Ok(call3(Combinator::C_, f, r1, *arg)),
                    Err(e) => Err(e),
                }
            } else {
                match abs_a(a1, name) {
                    Ok(r1) => match abs_a(*arg, name) {
                        Ok(r2) => Ok(call3(Combinator::S_, f, r1, r2)),
                        Err(e) => Err(e),
                    },
                    Err(e) => Err(e),
                }
            }
        } else if !aoccurs(*fun, name) {
            match abs_a(*arg, name) {
                Ok(ra) => Ok(call2(Combinator::B, *fun, ra)),
                Err(e) => Err(e),
            }
        } else if !aoccurs(*arg, name) {
            match abs_a(*fun, name) {
                Ok(rf) => Ok(call2(Combinator::C, rf, *arg)),
                Err(e) => Err(e),
            }
        } else {
            match abs_a(*fun, name) {
                Ok(rf) => match abs_a(*arg, name) {
                    Ok(ra) => Ok(call2(Combinator::S, rf, ra)),
                    Err(e) => Err(e),
                },
                Err(e) => Err(e),
            }
        },
    }
}

/// The model of an elimination result.
pub open spec fn res_view(r: Result<AbsTerm, AbsError>) -> Result<SpecAbs, AbsError> {
    match r {
        Ok(a) => Ok(a@),
        Err(e) => Err(e),
    }
}

proof fn lemma_call_small(c: Combinator, s: Seq<SpecAbs>)
    ensures
        s.len() == 1 ==> call_spec(c, s) == ap(comb(c), s[0]),
        s.len() == 2 ==> call_spec(c, s) == call2(c, s[0], s[1]),
        s.len() == 3 ==> call_spec(c, s) == call3(c, s[0], s[1], s[2]),
{
    reveal_with_fuel(call_spec, 4);
    if s.len() == 1 {
        assert(s.drop_last() =~= Seq::<SpecAbs>::empty());
    }
    if s.len() == 2 {
        assert(s.drop_last().drop_last() =~= Seq::<SpecAbs>::empty());
        assert(s.drop_last().last() == s[0]);
    }
    if s.len() == 3 {
        assert(s.drop_last().drop_last().drop_last() =~= Seq::<SpecAbs>::empty());
        assert(s.drop_last().last() == s[1]);
        assert(s.drop_last().drop_last().last() == s[0]);
    }
}

fn call1(c: Combinator, x: AbsTerm) -> (r: AbsTerm)
    ensures
        r@ == ap(comb(c), x@),
        max_leaf(r@) == max_leaf(x@),
{
    let v = vec![x];
    proof {
        assert(max_leaf(comb(c)) == 0);
        lemma_call_small(c, v@.map_values(|a: AbsTerm| a@));
    }
    AbsTerm::call(c, v)
}

fn call2_of(c: Combinator, x: AbsTerm, y: AbsTerm) -> (r: AbsTerm)
    ensures
        r@ == call2(c, x@, y@),
        max_leaf(r@) >= max_leaf(x@),
        max_leaf(r@) >= max_leaf(y@),
        max_leaf(r@) == max_leaf(x@) || max_leaf(r@) == max_leaf(y@),
{
    let ghost (gx, gy) = (x@, y@);
    let v = vec![x, y];
    proof {
        lemma_call_small(c, v@.map_values(|a: AbsTerm| a@));
        assert(max_leaf(comb(c)) == 0);
        assert(max_leaf(ap(comb(c), gx)) == max_leaf(gx));
    }
    AbsTerm::call(c, v)
}

fn call3_of(c: Combinator, x: AbsTerm, y: AbsTerm, z: AbsTerm) -> (r: AbsTerm)
    ensures
        r@ == call3(c, x@, y@, z@),
        max_leaf(r@) >= max_leaf(x@),
        max_leaf(r@) >= max_leaf(y@),
        max_leaf(r@) >= max_leaf(z@),
        max_leaf(r@) == max_leaf(x@) || max_leaf(r@) == max_leaf(y@) || max_leaf(r@) == max_leaf(
            z@,
        ),
{
    let ghost (gx, gy, gz) = (x@, y@, z@);
    let v = vec![x, y, z];
    proof {
        lemma_call_small(c, v@.map_values(|a: AbsTerm| a@));
        assert(max_leaf(comb(c)) == 0);
        assert(max_leaf(ap(comb(c), gx)) == max_leaf(gx));
        assert(max_leaf(call2(c, gx, gy)) >= max_leaf(gx));
    }
    AbsTerm::call(c, v)
}

fn leaf_of(t: Term) -> (r: AbsTerm)
    ensures
        r@ == leaf(t@),
        max_leaf(r@) == size(t@),
{
    AbsTerm::Term(t)
}

fn app_of(f: AbsTerm, x: AbsTerm) -> (r: AbsTerm)
    ensures
        r@ == ap(f@, x@),
        max_leaf(r@) >= max_leaf(f@),
        max_leaf(r@) >= max_leaf(x@),
        max_leaf(r@) == max_leaf(f@) || max_leaf(r@) == max_leaf(x@),
{
    AbsTerm::App(Box::new(f), Box::new(x))
}

impl AbsTerm {
    /// The combinator `called` applied, left to right, to each of `args`.
    pub fn call(called: Combinator, args: Vec<AbsTerm>) -> (r: AbsTerm)
        ensures
            r@ == call_spec(called, args@.map_values(|a: AbsTerm| a@)),
        decreases args@.len(),
    {
        let mut args = args;
        let ghost all = args@.map_values(|a: AbsTerm| a@);
        match args.pop() {
            None => {
                assert(all.len() == 0);
                AbsTerm::Comb(called)
            },
            Some(last) => {
                let ghost rest = args@.map_values(|a: AbsTerm| a@);
                assert(rest =~= all.drop_last());
                let head = AbsTerm::call(called, args);
                AbsTerm::App(Box::new(head), Box::new(last))
            },
        }
    }

    /// Whether `name` occurs free in the expression.
    pub fn occours_check(&self, name: &str) -> (r: bool)
        ensures
            r == aoccurs(self@, name@),
        decreases self,
    {
        match self {
            AbsTerm::Term(term) => term.occours_check(name),
            AbsTerm::Comb(_) => false,
            AbsTerm::App(fun, arg) => fun.occours_check(name) || arg.occours_check(name),
        }
    }

    fn is_var_leaf(&self, name: &str) -> (r: bool)
        ensures
            r == (self@ == leaf(SpecTerm::Var(name@))),
    {
        match self {
            AbsTerm::Term(t) => t.is_var(name),
            _ => false,
        }
    }

    /// Eliminates `name` from the expression.
    pub fn abstract_by(self, name: &str) -> (r: Result<AbsTerm, AbsError>)
        ensures
            res_view(r) == abs_a(self@, name@),
            r is Ok ==> max_leaf(r->Ok_0@) <= max_leaf(self@),
        decreases max_leaf(self@), 3nat, asize(self@),
    {
        let ghost a = self@;
        match self {
            AbsTerm::Term(term) => term.abstract_by(name),
            AbsTerm::Comb(c) => Ok(call1(Combinator::K, AbsTerm::Comb(c))),
            AbsTerm::App(fun, arg) => {
                let fo = fun.occours_check(name);
                if arg.is_var_leaf(name) && !fo {
                    return Ok(*fun);
                }
                let ao = arg.occours_check(name);
                let ghost fv = (*fun)@;
                if !fo && !ao {
                    return Ok(call1(Combinator::K, AbsTerm::App(fun, arg)));
                }
                match *fun {
                    AbsTerm::App(f, a1) if !f.occours_check(name) => {
                        proof {
                            assert(max_leaf((*a1)@) <= max_leaf(fv));
                            assert(max_leaf((*f)@) <= max_leaf(fv));
                            assert(asize((*a1)@) < asize(fv));
                        }
                        let o1 = a1.occours_check(name);
                        if !o1 {
                            let r2 = match arg.abstract_by(name) {
                                Ok(v) => v,
                                Err(e) => return Err(e),
                            };
                            Ok(call3_of(Combinator::B_, *f, *a1, r2))
                        } else if !ao {
                            let r1 = match a1.abstract_by(name) {
                                Ok(v) => v,
                                Err(e) => return Err(e),
                            };
                            Ok(call3_of(Combinator::C_, *f, r1, *arg))
                        } else {
                            let r1 = match a1.abstract_by(name) {
                                Ok(v) => v,
                                Err(e) => return Err(e),
                            };
                            let r2 = match arg.abstract_by(name) {
                                Ok(v) => v,
                                Err(e) => return Err(e),
                            };
                            Ok(call3_of(Combinator::S_, *f, r1, r2))
                        }
                    },
                    fun => {
                        if !fo {
                            let ra = match arg.abstract_by(name) {
                                Ok(v) => v,
                                Err(e) => return Err(e),
                            };
                            Ok(call2_of(Combinator::B, fun, ra))
                        } else if !ao {
                            let rf = match fun.abstract_by(name) {
                                Ok(v) => v,
                                Err(e) => return Err(e),
                            };
                            Ok(call2_of(Combinator::C, rf, *arg))
                        } else {
                            let rf = match fun.abstract_by(name) {
                                Ok(v) => v,
                                Err(e) => return Err(e),
                            };
                            let ra = match arg.abstract_by(name) {
                                Ok(v) => v,
                                Err(e) => return Err(e),
                            };
                            Ok(call2_of(Combinator::S, rf, ra))
                        }
                    },
                }
            },
        }
    }
}

impl Term {
    /// Eliminates the binder `name` from the term (bracket abstraction).
    pub fn abstract_by(self, name: &str) -> (r: Result<AbsTerm, AbsError>)
        ensures
            res_view(r) == abs_t(self@, name@),
            r is Ok ==> max_leaf(r->Ok_0@) <= size(self@),
        decreases size(self@), 2nat, 0nat,
    {
        let ghost t = self@;
        match self {
            Term::Lam { nam: Some(n), bod } => {
                if bod.channel_check(n.as_str(), false) {
                    return Ok(AbsTerm::Term(Term::Lam { nam: Some(n), bod }));
                }
                let r = match bod.abstract_by(n.as_str()) {
                    Ok(v) => v,
                    Err(e) => return Err(e),
                };
                r.abstract_by(name)
            },
            Term::Lam { nam: None, bod } => {
                let r = match bod.abstract_by(name) {
                    Ok(v) => v,
                    Err(e) => return Err(e),
                };
                Ok(call1(Combinator::K, r))
            },
            other => {
                if !other.occours_check(name) {
                    return Ok(call1(Combinator::K, leaf_of(other)));
                }
                match other {
                    Term::Var { .. } => Ok(AbsTerm::Comb(Combinator::I)),
                    Term::App { fun, arg } => abstract_app(*fun, *arg, name),
                    Term::Dup { fst, snd, val, nxt } => match (fst, snd) {
                        (Some(f), Some(s)) => {
                            let ghost nxt_v = nxt@;
                            let nxt = nxt.subst_var(&s, &f);
                            proof {
                                lemma_rename_size(nxt_v, s@, f@);
                            }
                            let r = match nxt.abstract_if_occours(f.as_str()) {
                                Ok(v) => v,
                                Err(e) => return Err(e),
                            };
                            abstract_let(r, *val, name, Ghost(size(t)))
                        },
                        (Some(f), None) => {
                            let r = match nxt.abstract_if_occours(f.as_str()) {
                                Ok(v) => v,
                                Err(e) => return Err(e),
                            };
                            abstract_let(r, *val, name, Ghost(size(t)))
                        },
                        (None, Some(s)) => {
                            let r = match nxt.abstract_if_occours(s.as_str()) {
                                Ok(v) => v,
                                Err(e) => return Err(e),
                            };
                            abstract_let(r, *val, name, Ghost(size(t)))
                        },
                        (None, None) => nxt.abstract_by(name),
                    },
                    Term::Let { nam, val, nxt } => {
                        let r = match nxt.abstract_if_occours(nam.as_str()) {
                            Ok(v) => v,
                            Err(e) => return Err(e),
                        };
                        abstract_let(r, *val, name, Ghost(size(t)))
                    },
                    Term::Chn { .. } => Err(AbsError::Channel),
                    Term::Sup { .. } => Err(AbsError::Superposition),
                    leaf_term => {
                        // References, links and erasers hold no variable.
                        proof {
                            assert(false);
                        }
                        Ok(AbsTerm::Term(leaf_term))
                    },
                }
            },
        }
    }

    fn abstract_if_occours(self, name: &str) -> (r: Result<AbsTerm, AbsError>)
        ensures
            res_view(r) == abs_if(self@, name@),
            r is Ok ==> max_leaf(r->Ok_0@) <= size(self@),
        decreases size(self@), 3nat, 0nat,
    {
        if self.occours_check(name) {
            self.abstract_by(name)
        } else {
            Ok(AbsTerm::Term(self))
        }
    }
}

/// Eliminates `name` from a let read as `r` applied to the bound value.
fn abstract_let(r: AbsTerm, val: Term, name: &str, bound: Ghost<nat>) -> (res: Result<
    AbsTerm,
    AbsError,
>)
    requires
        max_leaf(r@) < bound@,
        size(val@) < bound@,
    ensures
        res_view(res) == let_tail(r@, val@, bound@, name@),
        res is Ok ==> max_leaf(res->Ok_0@) < bound@,
    decreases bound@, 1nat, 0nat,
{
    app_of(r, leaf_of(val)).abstract_by(name)
}

/// Eliminates `name` from the application of `fun` to `arg`, in which it occurs.
fn abstract_app(fun: Term, arg: Term, name: &str) -> (r: Result<AbsTerm, AbsError>)
    requires
        occurs(fun@, name@) || occurs(arg@, name@),
    ensures
        res_view(r) == abs_app(fun@, arg@, name@),
        r is Ok ==> max_leaf(r->Ok_0@) <= 1 + size(fun@) + size(arg@),
    decreases 1 + size(fun@) + size(arg@), 1nat, 0nat,
{
    // The eta shortcut comes first: `fun name` by `name` is `fun` itself.
    if arg.is_var(name) && !fun.occours_check(name) {
        return Ok(AbsTerm::Term(fun));
    }
    match fun {
        Term::Lam { nam: Some(n), bod } => {
            if bod.channel_check(n.as_str(), false) {
                let ra = match arg.abstract_by(name) {
                    Ok(v) => v,
                    Err(e) => return Err(e),
                };
                Ok(app_of(leaf_of(Term::Lam { nam: Some(n), bod }), ra))
            } else {
                let rf = match bod.abstract_by(n.as_str()) {
                    Ok(v) => v,
                    Err(e) => return Err(e),
                };
                app_of(rf, leaf_of(arg)).abstract_by(name)
            }
        },
        fun => match arg {
            Term::Lam { nam: Some(n), bod } => {
                if bod.channel_check(n.as_str(), false) {
                    let rf = match fun.abstract_by(name) {
                        Ok(v) => v,
                        Err(e) => return Err(e),
                    };
                    Ok(app_of(rf, leaf_of(Term::Lam { nam: Some(n), bod })))
                } else {
                    let ra = match bod.abstract_by(n.as_str()) {
                        Ok(v) => v,
                        Err(e) => return Err(e),
                    };
                    app_of(leaf_of(fun), ra).abstract_by(name)
                }
            },
            arg => {
                let fo = fun.occours_check(name);
                let ao = arg.occours_check(name);
                match fun {
                    Term::App { fun: f, arg: a1 } if !f.occours_check(name) => {
                        match (a1.occours_check(name), ao) {
                            (false, true) => {
                                let r2 = match arg.abstract_by(name) {
                                    Ok(v) => v,
                                    Err(e) => return Err(e),
                                };
                                Ok(call3_of(Combinator::B_, leaf_of(*f), leaf_of(*a1), r2))
                            },
                            (true, false) => {
                                let r1 = match a1.abstract_by(name) {
                                    Ok(v) => v,
                                    Err(e) => return Err(e),
                                };
                                Ok(call3_of(Combinator::C_, leaf_of(*f), r1, leaf_of(arg)))
                            },
                            (true, true) => {
                                let r1 = match a1.abstract_by(name) {
                                    Ok(v) => v,
                                    Err(e) => return Err(e),
                                };
                                let r2 = match arg.abstract_by(name) {
                                    Ok(v) => v,
                                    Err(e) => return Err(e),
                                };
                                Ok(call3_of(Combinator::S_, leaf_of(*f), r1, r2))
                            },
                            (false, false) => {
                                // The name occurs in the application, so in one of its sides.
                                proof {
                                    assert(false);
                                }
                                Err(AbsError::Channel)
                            },
                        }
                    },
                    fun => match (fo, ao) {
                        (false, true) => {
                            let ra = match arg.abstract_by(name) {
                                Ok(v) => v,
                                Err(e) => return Err(e),
                            };
                            Ok(call2_of(Combinator::B, leaf_of(fun), ra))
                        },
                        (true, false) => {
                            let rf = match fun.abstract_by(name) {
                                Ok(v) => v,
                                Err(e) => return Err(e),
                            };
                            Ok(call2_of(Combinator::C, rf, leaf_of(arg)))
                        },
                        (true, true) => {
                            let rf = match fun.abstract_by(name) {
                                Ok(v) => v,
                                Err(e) => return Err(e),
                            };
                            let ra = match arg.abstract_by(name) {
                                Ok(v) => v,
                                Err(e) => return Err(e),
                            };
                            Ok(call2_of(Combinator::S, rf, ra))
                        },
                        (false, false) => {
                            // The name occurs in the application, so in one of its sides.
                            proof {
                                assert(false);
                            }
                            Err(AbsError::Channel)
                        },
                    },
                }
            },
        },
    }
}

/// The printed tag of a combinator.
pub open spec fn comb_tag(c: Combinator) -> Seq<char> {
    match c {
        Combinator::K => "K"@,
        Combinator::I => "I"@,
        Combinator::B => "B"@,
        Combinator::C => "C"@,
        Combinator::S => "S"@,
        Combinator::B_ => "B_"@,
        Combinator::C_ => "C_"@,
        Combinator::S_ => "S_"@,
    }
}

/// The printed form of a combinator expression.
pub open spec fn show_abs(a: SpecAbs, names: Seq<Seq<char>>) -> Seq<char>
    decreases a,
{
    match a {
        SpecAbs::Term(t) => show_term(t, names),
        SpecAbs::Comb(c) => comb_tag(c),
        SpecAbs::App(f, x) => "("@ + show_abs(*f, names) + " "@ + show_abs(*x, names) + ")"@,
    }
}

impl Combinator {
    /// The printed tag of the combinator.
    pub fn tag(&self) -> (r: &'static str)
        ensures
            r@ == comb_tag(*self),
    {
        match self {
            Combinator::K => "K",
            Combinator::I => "I",
            Combinator::B => "B",
            Combinator::C => "C",
            Combinator::S => "S",
            Combinator::B_ => "B_",
            Combinator::C_ => "C_",
            Combinator::S_ => "S_",
        }
    }
}

impl AbsTerm {
    /// The printed form of the expression.
    pub fn to_string(&self, names: &DefNames) -> (r: String)
        ensures
            r@ == show_abs(self@, names@),
        decreases self,
    {
        match self {
            AbsTerm::Term(term) => term.to_string(names),
            AbsTerm::Comb(comb) => comb.tag().to_owned(),
            AbsTerm::App(k, args) => {
                let mut out = "(".to_owned();
                out.append(k.to_string(names).as_str());
                out.append(" ");
                out.append(args.to_string(names).as_str());
                out.append(")");
                proof {
                    assert(out@ =~= show_abs(self@, names@));
                }
                out
            },
        }
    }
}

#[via_fn]
proof fn abs_a_decreases(a: SpecAbs, name: Seq<char>) {
    if let SpecAbs::App(fun, arg) = a {
        if let SpecAbs::App(f, a1) = *fun {
            assert(max_leaf(*a1) <= max_leaf(*fun));
            assert(asize(*a1) < asize(*fun));
            assert(asize(*fun) < asize(a));
        }
    }
}

} // verus!
