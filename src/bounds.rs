use vstd::prelude::*;
use crate::abstraction::{abs_a, abs_app, abs_if, abs_t, asize, leaf, let_tail, max_leaf, SpecAbs};
use crate::term::{lemma_rename_size, occurs, rename, size, SpecTerm};

verus! {

pub(crate) proof fn lemma_bound_t(t: SpecTerm, name: Seq<char>)
    ensures
        abs_t(t, name) is Ok ==> max_leaf(abs_t(t, name)->Ok_0) <= size(t),
    decreases size(t), 2nat, 0nat,
{
    reveal_with_fuel(max_leaf, 3);
    match t {
        SpecTerm::Lam(Some(n), bod) => {
            lemma_bound_t(*bod, n);
            if let Ok(r) = abs_t(*bod, n) {
                if max_leaf(r) < size(t) {
                    lemma_bound_a(r, name);
                }
            }
        },
        SpecTerm::Lam(None, bod) => lemma_bound_t(*bod, name),
        _ => if occurs(t, name) {
            match t {
                SpecTerm::App(f, a) => lemma_bound_app(*f, *a, name),
                SpecTerm::Dup(fst, snd, val, nxt) => {
                    if fst is Some && snd is Some {
                        let nxt2 = rename(*nxt, snd->0, fst->0);
                        lemma_rename_size(*nxt, snd->0, fst->0);
                        lemma_bound_if(nxt2, fst->0);
                        if let Ok(r) = abs_if(nxt2, fst->0) {
                            lemma_bound_tail(r, *val, size(t), name);
                        }
                    } else if fst is Some {
                        lemma_bound_if(*nxt, fst->0);
                        if let Ok(r) = abs_if(*nxt, fst->0) {
                            lemma_bound_tail(r, *val, size(t), name);
                        }
                    } else if snd is Some {
                        lemma_bound_if(*nxt, snd->0);
                        if let Ok(r) = abs_if(*nxt, snd->0) {
                            lemma_bound_tail(r, *val, size(t), name);
                        }
                    } else {
                        lemma_bound_t(*nxt, name);
                    }
                },
                SpecTerm::Let(n, val, nxt) => {
                    lemma_bound_if(*nxt, n);
                    if let Ok(r) = abs_if(*nxt, n) {
                        lemma_bound_tail(r, *val, size(t), name);
                    }
                },
                _ => {},
            }
        },
    }
}

pub(crate) proof fn lemma_bound_if(t: SpecTerm, name: Seq<char>)
    ensures
        abs_if(t, name) is Ok ==> max_leaf(abs_if(t, name)->Ok_0) <= size(t),
    decreases size(t), 3nat, 0nat,
{
    lemma_bound_t(t, name);
}

pub(crate) proof fn lemma_bound_tail(r: SpecAbs, val: SpecTerm, bound: nat, name: Seq<char>)
    ensures
        let_tail(r, val, bound, name) is Ok ==> max_leaf(let_tail(r, val, bound, name)->Ok_0)
            <= max_leaf(SpecAbs::App(Box::new(r), Box::new(leaf(val)))),
    decreases bound, 1nat, 0nat,
{
    let x = SpecAbs::App(Box::new(r), Box::new(leaf(val)));
    if max_leaf(x) < bound {
        lemma_bound_a(x, name);
    }
}

pub(crate) proof fn lemma_bound_app(fun: SpecTerm, arg: SpecTerm, name: Seq<char>)
    ensures
        abs_app(fun, arg, name) is Ok ==> max_leaf(abs_app(fun, arg, name)->Ok_0) <= 1 + size(fun)
            + size(arg),
    decreases 1 + size(fun) + size(arg), 1nat, 0nat,
{
    reveal_with_fuel(max_leaf, 5);
    let bound = 1 + size(fun) + size(arg);
    lemma_bound_t(fun, name);
    lemma_bound_t(arg, name);
    if let SpecTerm::App(f, a1) = fun {
        lemma_bound_t(*a1, name);
    }
    if let SpecTerm::Lam(Some(n), bod) = fun {
        lemma_bound_t(*bod, n);
        if let Ok(rf) = abs_t(*bod, n) {
            let x = SpecAbs::App(Box::new(rf), Box::new(leaf(arg)));
            if max_leaf(x) < bound {
                lemma_bound_a(x, name);
            }
        }
    }
    if let SpecTerm::Lam(Some(n), bod) = arg {
        lemma_bound_t(*bod, n);
        if let Ok(ra) = abs_t(*bod, n) {
            let x = SpecAbs::App(Box::new(leaf(fun)), Box::new(ra));
            if max_leaf(x) < bound {
                lemma_bound_a(x, name);
            }
        }
    }
}

pub(crate) proof fn lemma_bound_a(a: SpecAbs, name: Seq<char>)
    ensures
        abs_a(a, name) is Ok ==> max_leaf(abs_a(a, name)->Ok_0) <= max_leaf(a),
    decreases max_leaf(a), 3nat, asize(a),
{
    reveal_with_fuel(max_leaf, 5);
    match a {
        SpecAbs::Term(t) => lemma_bound_t(t, name),
        SpecAbs::Comb(_) => {},
        SpecAbs::App(fun, arg) => {
            lemma_bound_a(*fun, name);
            lemma_bound_a(*arg, name);
            if let SpecAbs::App(f, a1) = *fun {
                assert(max_leaf(*a1) <= max_leaf(*fun));
                assert(asize(*a1) < asize(*fun));
                lemma_bound_a(*a1, name);
            }
        },
    }
}

/// The size tests that make elimination terminate always pass, so their
/// fallback branches are never taken: abstracting a lambda's body gives an
/// expression whose opaque terms are smaller than the lambda, and likewise
/// for a let or a duplication read as an application.
pub proof fn lemma_guards_hold(t: SpecTerm, name: Seq<char>)
    ensures
        abs_t(t, name) is Ok ==> max_leaf(abs_t(t, name)->Ok_0) <= size(t),
        abs_a(leaf(t), name) is Ok ==> max_leaf(abs_a(leaf(t), name)->Ok_0) <= size(t),
        t is Lam && t->Lam_0 is Some && abs_t(*t->Lam_1, t->Lam_0->0) is Ok ==> max_leaf(
            abs_t(*t->Lam_1, t->Lam_0->0)->Ok_0,
        ) < size(t),
        forall|n: Seq<char>|
            abs_if(t, n) is Ok ==> #[trigger] max_leaf(abs_if(t, n)->Ok_0) <= size(t),
{
    lemma_bound_t(t, name);
    if let SpecTerm::Lam(Some(n), bod) = t {
        lemma_bound_t(*bod, n);
    }
    assert forall|n: Seq<char>| abs_if(t, n) is Ok implies #[trigger] max_leaf(
        abs_if(t, n)->Ok_0,
    ) <= size(t) by {
        lemma_bound_if(t, n);
    }
}

} // verus!
