use vstd::prelude::*;
use crate::abstraction::{abs_t, abs_view, ap, call2, comb, AbsError, AbsTerm, Combinator, SpecAbs};
use crate::book::{lookup, DefNames};
use crate::term::{channel, simple, SpecTerm, Term};

verus! {

/// `Some(c)` when the expression is `C_ c I I`.
pub open spec fn flip_ii_head(a: SpecAbs) -> Option<Combinator> {
    match a {
        SpecAbs::App(f, x) => match (*f, *x) {
            (SpecAbs::App(g, y), SpecAbs::Comb(Combinator::I)) => match (*g, *y) {
                (SpecAbs::App(h, z), SpecAbs::Comb(Combinator::I)) => match (*h, *z) {
                    (SpecAbs::Comb(Combinator::C_), SpecAbs::Comb(c)) => Some(c),
                    _ => None,
                },
                _ => None,
            },
            _ => None,
        },
        _ => None,
    }
}

/// The peephole reducer: `C_ C_ I I` is `C`, `C_ S_ I I` is `S`, `C_ (C I) I` is `I`;
/// any other `C_ c I I` is kept as it is; elsewhere both sides are reduced.
pub open spec fn reduce_spec(a: SpecAbs) -> SpecAbs
    decreases a,
{
    match flip_ii_head(a) {
        Some(Combinator::C_) => comb(Combinator::C),
        Some(Combinator::S_) => comb(Combinator::S),
        Some(_) => a,
        None => if a == call2(
            Combinator::C_,
            ap(comb(Combinator::C), comb(Combinator::I)),
            comb(Combinator::I),
        ) {
            comb(Combinator::I)
        } else {
            match a {
                SpecAbs::App(f, x) => ap(reduce_spec(*f), reduce_spec(*x)),
                _ => a,
            }
        },
    }
}

/// The name under which a combinator's definition is registered.
pub open spec fn comb_name(c: Combinator) -> Seq<char> {
    match c {
        Combinator::K => "_K"@,
        Combinator::I => "_I"@,
        Combinator::B => "_B"@,
        Combinator::C => "_C"@,
        Combinator::S => "_S"@,
        Combinator::B_ => "_B_"@,
        Combinator::C_ => "_C_"@,
        Combinator::S_ => "_S_"@,
    }
}

/// Every combinator's name resolves in the table.
pub open spec fn has_combinators(names: Seq<Seq<char>>) -> bool {
    forall|c: Combinator| #[trigger] lookup(names, comb_name(c)) is Some
}

/// Lowering: combinators become references to their definitions.
pub open spec fn lower(a: SpecAbs, names: Seq<Seq<char>>) -> SpecTerm
    decreases a,
{
    match a {
        SpecAbs::Term(t) => t,
        SpecAbs::Comb(c) => SpecTerm::Ref(lookup(names, comb_name(c))->0 as usize),
        SpecAbs::App(f, x) => SpecTerm::App(Box::new(lower(*f, names)), Box::new(lower(*x, names))),
    }
}

/// Extraction of one named lambda: kept when its binder is channel-guarded,
/// else its body is abstracted by the binder, reduced and lowered.
#[verifier::opaque]
pub open spec fn extract(t: SpecTerm, names: Seq<Seq<char>>) -> Result<SpecTerm, AbsError> {
    match t {
        SpecTerm::Lam(Some(n), bod) => if channel(*bod, n, false) {
            Ok(t)
        } else {
            match abs_t(*bod, n) {
                Ok(r) => Ok(lower(reduce_spec(r), names)),
                Err(e) => Err(e),
            }
        },
        _ => Ok(t),
    }
}

/// The lambda walk: named lambdas are extracted, except a simple one at the root.
pub open spec fn walk(t: SpecTerm, root: bool, names: Seq<Seq<char>>) -> Result<
    SpecTerm,
    AbsError,
>
    decreases t,
{
    match t {
        SpecTerm::Lam(Some(_), bod) => if root && simple(*bod) {
            Ok(t)
        } else {
            extract(t, names)
        },
        SpecTerm::Lam(None, bod) => match walk(*bod, false, names) {
            Ok(b) => Ok(SpecTerm::Lam(None, Box::new(b))),
            Err(e) => Err(e),
        },
        SpecTerm::Chn(n, bod) => match walk(*bod, false, names) {
            Ok(b) => Ok(SpecTerm::Chn(n, Box::new(b))),
            Err(e) => Err(e),
        },
        SpecTerm::Let(n, val, nxt) => match walk(*val, false, names) {
            Ok(v) => match walk(*nxt, false, names) {
                Ok(x) => Ok(SpecTerm::Let(n, Box::new(v), Box::new(x))),
                Err(e) => Err(e),
            },
            Err(e) => Err(e),
        },
        SpecTerm::App(fun, arg) => match walk(*fun, false, names) {
            Ok(f) => match walk(*arg, false, names) {
                Ok(a) => Ok(SpecTerm::App(Box::new(f), Box::new(a))),
                Err(e) => Err(e),
            },
            Err(e) => Err(e),
        },
        SpecTerm::Dup(fst, snd, val, nxt) => match walk(*val, false, names) {
            Ok(v) => match walk(*nxt, false, names) {
                Ok(x) => Ok(SpecTerm::Dup(fst, snd, Box::new(v), Box::new(x))),
                Err(e) => Err(e),
            },
            Err(e) => Err(e),
        },
        SpecTerm::Sup(_, _) => Err(AbsError::Superposition),
        _ => Ok(t),
    }
}

impl Combinator {
    /// The name of the combinator's definition.
    pub fn def_name(&self) -> (r: &'static str)
        ensures
            r@ == comb_name(*self),
    {
        match self {
            Combinator::K => "_K",
            Combinator::I => "_I",
            Combinator::B => "_B",
            Combinator::C => "_C",
            Combinator::S => "_S",
            Combinator::B_ => "_B_",
            Combinator::C_ => "_C_",
            Combinator::S_ => "_S_",
        }
    }
}

/// A reference to the definition registered under `name`.
fn comb_ref(name: &str, names: &DefNames) -> (r: Term)
    requires
        lookup(names@, name@) is Some,
    ensures
        r@ == SpecTerm::Ref(lookup(names@, name@)->0 as usize),
{
    match names.def_id(name) {
        Some(def_id) => Term::Ref { def_id },
        None => {
            proof {
                assert(false);
            }
            Term::Era
        },
    }
}

impl AbsTerm {
    fn flip_ii_head(&self) -> (r: Option<Combinator>)
        ensures
            r == flip_ii_head(self@),
    {
        proof {
            reveal_with_fuel(abs_view, 5);
        }
        if let AbsTerm::App(f, x) = self {
            if let AbsTerm::Comb(Combinator::I) = &**x {
                if let AbsTerm::App(g, y) = &**f {
                    if let AbsTerm::Comb(Combinator::I) = &**y {
                        if let AbsTerm::App(h, z) = &**g {
                            if let AbsTerm::Comb(Combinator::C_) = &**h {
                                if let AbsTerm::Comb(c) = &**z {
                                    return Some(*c);
                                }
                            }
                        }
                    }
                }
            }
        }
        None
    }

    fn is_flip_ci_i(&self) -> (r: bool)
        ensures
            r == (self@ == call2(
                Combinator::C_,
                ap(comb(Combinator::C), comb(Combinator::I)),
                comb(Combinator::I),
            )),
    {
        proof {
            reveal_with_fuel(abs_view, 5);
        }
        if let AbsTerm::App(f, x) = self {
            if let AbsTerm::Comb(Combinator::I) = &**x {
                if let AbsTerm::App(g, y) = &**f {
                    if let AbsTerm::Comb(Combinator::C_) = &**g {
                        if let AbsTerm::App(h, z) = &**y {
                            if let AbsTerm::Comb(Combinator::C) = &**h {
                                if let AbsTerm::Comb(Combinator::I) = &**z {
                                    return true;
                                }
                            }
                        }
                    }
                }
            }
        }
        false
    }

    fn reduced(self) -> (r: AbsTerm)
        ensures
            r@ == reduce_spec(self@),
        decreases self,
    {
        match self.flip_ii_head() {
            Some(Combinator::C_) => AbsTerm::Comb(Combinator::C),
            Some(Combinator::S_) => AbsTerm::Comb(Combinator::S),
            Some(_) => self,
            None => {
                if self.is_flip_ci_i() {
                    AbsTerm::Comb(Combinator::I)
                } else {
                    match self {
                        AbsTerm::App(f, x) => AbsTerm::App(
                            Box::new(f.reduced()),
                            Box::new(x.reduced()),
                        ),
                        other => other,
                    }
                }
            },
        }
    }

    /// Applies the peephole rewrites, bottom-up, in place.
    pub fn reduce(&mut self)
        ensures
            final(self)@ == reduce_spec(old(self)@),
    {
        let mut t = AbsTerm::Comb(Combinator::I);
        std::mem::swap(self, &mut t);
        *self = t.reduced();
    }

    /// Lowers the expression to a term; combinators become references.
    pub fn to_term(self, names: &DefNames) -> (r: Term)
        requires
            has_combinators(names@),
        ensures
            r@ == lower(self@, names@),
        decreases self,
    {
        match self {
            AbsTerm::Term(term) => term,
            AbsTerm::Comb(c) => {
                proof {
                    assert(lookup(names@, comb_name(c)) is Some);
                }
                comb_ref(c.def_name(), names)
            },
            AbsTerm::App(k, args) => Term::app(k.to_term(names), args.to_term(names)),
        }
    }
}

fn extract_lambda(t: Term, names: &DefNames) -> (r: Result<Term, AbsError>)
    requires
        has_combinators(names@),
    ensures
        match extract(t@, names@) {
            Ok(x) => r is Ok && r->Ok_0@ == x,
            Err(e) => r == Err::<Term, AbsError>(e),
        },
{
    proof {
        reveal(extract);
    }
    match t {
        Term::Lam { nam: Some(name), bod } => {
            if bod.channel_check(name.as_str(), false) {
                Ok(Term::Lam { nam: Some(name), bod })
            } else {
                match bod.abstract_by(name.as_str()) {
                    Ok(abstracted) => {
                        let mut abstracted = abstracted;
                        abstracted.reduce();
                        Ok(abstracted.to_term(names))
                    },
                    Err(e) => Err(e),
                }
            }
        },
        other => Ok(other),
    }
}

#[verifier::rlimit(60)]
fn walk_lambdas(t: Term, root: bool, names: &DefNames) -> (r: Result<Term, AbsError>)
    requires
        has_combinators(names@),
    ensures
        match walk(t@, root, names@) {
            Ok(x) => r is Ok && r->Ok_0@ == x,
            Err(e) => r == Err::<Term, AbsError>(e),
        },
    decreases t,
{
    match t {
        Term::Lam { nam: Some(n), bod } => {
            if root && bod.is_simple() {
                Ok(Term::Lam { nam: Some(n), bod })
            } else {
                extract_lambda(Term::Lam { nam: Some(n), bod }, names)
            }
        },
        Term::Lam { nam: None, bod } => match walk_lambdas(*bod, false, names) {
            Ok(b) => Ok(Term::Lam { nam: None, bod: Box::new(b) }),
            Err(e) => Err(e),
        },
        Term::Chn { nam, bod } => match walk_lambdas(*bod, false, names) {
            Ok(b) => Ok(Term::Chn { nam, bod: Box::new(b) }),
            Err(e) => Err(e),
        },
        Term::Let { nam, val, nxt } => match walk_lambdas(*val, false, names) {
            Ok(v) => match walk_lambdas(*nxt, false, names) {
                Ok(x) => Ok(Term::Let { nam, val: Box::new(v), nxt: Box::new(x) }),
                Err(e) => Err(e),
            },
            Err(e) => Err(e),
        },
        Term::App { fun, arg } => match walk_lambdas(*fun, false, names) {
            Ok(f) => match walk_lambdas(*arg, false, names) {
                Ok(a) => Ok(Term::App { fun: Box::new(f), arg: Box::new(a) }),
                Err(e) => Err(e),
            },
            Err(e) => Err(e),
        },
        Term::Dup { fst, snd, val, nxt } => match walk_lambdas(*val, false, names) {
            Ok(v) => match walk_lambdas(*nxt, false, names) {
                Ok(x) => Ok(Term::Dup { fst, snd, val: Box::new(v), nxt: Box::new(x) }),
                Err(e) => Err(e),
            },
            Err(e) => Err(e),
        },
        Term::Sup { .. } => Err(AbsError::Superposition),
        other => Ok(other),
    }
}

impl Term {
    /// Extracts this named lambda into combinators, in place; a lambda whose
    /// binder is channel-guarded, or a term that is no named lambda, is kept.
    /// On an error the term is left as it was.
    pub fn abstract_lambda(&mut self, names: &DefNames) -> (r: Result<(), AbsError>)
        requires
            has_combinators(names@),
        ensures
            match extract(old(self)@, names@) {
                Ok(x) => r is Ok && final(self)@ == x,
                Err(e) => r == Err::<(), AbsError>(e) && final(self)@ == old(self)@,
            },
    {
        let saved = self.duplicate();
        let mut t = Term::Era;
        std::mem::swap(self, &mut t);
        match extract_lambda(t, names) {
            Ok(x) => {
                *self = x;
                Ok(())
            },
            Err(e) => {
                *self = saved;
                Err(e)
            },
        }
    }

    /// Extracts every named lambda of the term except a simple one at its root,
    /// in place. On an error the term is left as it was.
    pub fn abstract_lambdas(&mut self, names: &DefNames) -> (r: Result<(), AbsError>)
        requires
            has_combinators(names@),
        ensures
            match walk(old(self)@, true, names@) {
                Ok(x) => r is Ok && final(self)@ == x,
                Err(e) => r == Err::<(), AbsError>(e) && final(self)@ == old(self)@,
            },
    {
        let saved = self.duplicate();
        let mut t = Term::Era;
        std::mem::swap(self, &mut t);
        match walk_lambdas(t, true, names) {
            Ok(x) => {
                *self = x;
                Ok(())
            },
            Err(e) => {
                *self = saved;
                Err(e)
            },
        }
    }
}

} // verus!
