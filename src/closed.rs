use vstd::prelude::*;
use crate::abstraction::{abs_a, abs_app, abs_if, abs_t, aoccurs, asize, let_tail, max_leaf, SpecAbs};
use crate::bounds::lemma_bound_if;
use crate::extraction::{extract, lower, reduce_spec, walk};
use crate::term::{lemma_rename_size, occurs, rename, simple, size, SpecTerm};

verus! {

/// A term with no lambda, channel or superposition in it.
pub open spec fn lam_free(t: SpecTerm) -> bool
    decreases t,
{
    match t {
        SpecTerm::Lam(_, _) => false,
        SpecTerm::Chn(_, _) => false,
        SpecTerm::Sup(_, _) => false,
        SpecTerm::App(f, a) => lam_free(*f) && lam_free(*a),
        SpecTerm::Let(_, v, x) => lam_free(*v) && lam_free(*x),
        SpecTerm::Dup(_, _, v, x) => lam_free(*v) && lam_free(*x),
        _ => true,
    }
}

/// A combinator expression whose opaque terms are all lambda-free.
pub open spec fn alam_free(a: SpecAbs) -> bool
    decreases a,
{
    match a {
        SpecAbs::Term(t) => lam_free(t),
        SpecAbs::Comb(_) => true,
        SpecAbs::App(f, x) => alam_free(*f) && alam_free(*x),
    }
}

proof fn lemma_rename_lam_free(t: SpecTerm, from: Seq<char>, to: Seq<char>)
    requires
        lam_free(t),
    ensures
        lam_free(rename(t, from, to)),
    decreases t,
{
    match t {
        SpecTerm::App(f, a) => {
            lemma_rename_lam_free(*f, from, to);
            lemma_rename_lam_free(*a, from, to);
        },
        SpecTerm::Let(_, v, x) => {
            lemma_rename_lam_free(*v, from, to);
            lemma_rename_lam_free(*x, from, to);
        },
        SpecTerm::Dup(_, _, v, x) => {
            lemma_rename_lam_free(*v, from, to);
            lemma_rename_lam_free(*x, from, to);
        },
        _ => {},
    }
}

proof fn lemma_t(t: SpecTerm, name: Seq<char>)
    requires
        lam_free(t),
    ensures
        abs_t(t, name) is Ok,
        alam_free(abs_t(t, name)->Ok_0),
    decreases size(t), 2nat, 0nat,
{
    reveal_with_fuel(alam_free, 3);
    if occurs(t, name) {
        match t {
            SpecTerm::App(f, a) => lemma_app(*f, *a, name),
            SpecTerm::Dup(fst, snd, val, nxt) => {
                if fst is Some && snd is Some {
                    let nxt2 = rename(*nxt, snd->0, fst->0);
                    lemma_rename_size(*nxt, snd->0, fst->0);
                    lemma_rename_lam_free(*nxt, snd->0, fst->0);
                    lemma_if(nxt2, fst->0);
                    if let Ok(r) = abs_if(nxt2, fst->0) {
                        lemma_tail(r, *val, size(t), name);
                    }
                } else if fst is Some {
                    lemma_if(*nxt, fst->0);
                    if let Ok(r) = abs_if(*nxt, fst->0) {
                        lemma_tail(r, *val, size(t), name);
                    }
                } else if snd is Some {
                    lemma_if(*nxt, snd->0);
                    if let Ok(r) = abs_if(*nxt, snd->0) {
                        lemma_tail(r, *val, size(t), name);
                    }
                } else {
                    lemma_t(*nxt, name);
                }
            },
            SpecTerm::Let(n, val, nxt) => {
                lemma_if(*nxt, n);
                if let Ok(r) = abs_if(*nxt, n) {
                    lemma_tail(r, *val, size(t), name);
                }
            },
            _ => {},
        }
    }
}

proof fn lemma_if(t: SpecTerm, name: Seq<char>)
    requires
        lam_free(t),
    ensures
        abs_if(t, name) is Ok,
        alam_free(abs_if(t, name)->Ok_0),
    decreases size(t), 3nat, 0nat,
{
    lemma_t(t, name);
}

proof fn lemma_tail(r: SpecAbs, val: SpecTerm, bound: nat, name: Seq<char>)
    requires
        alam_free(r),
        lam_free(val),
    ensures
        let_tail(r, val, bound, name) is Ok,
        alam_free(let_tail(r, val, bound, name)->Ok_0),
    decreases bound, 1nat, 0nat,
{
    let x = SpecAbs::App(Box::new(r), Box::new(SpecAbs::Term(val)));
    assert(alam_free(SpecAbs::Term(val)));
    if max_leaf(x) < bound {
        lemma_a(x, name);
    }
}

proof fn lemma_app(fun: SpecTerm, arg: SpecTerm, name: Seq<char>)
    requires
        lam_free(fun),
        lam_free(arg),
    ensures
        abs_app(fun, arg, name) is Ok,
        alam_free(abs_app(fun, arg, name)->Ok_0),
    decreases 1 + size(fun) + size(arg), 1nat, 0nat,
{
    reveal_with_fuel(alam_free, 5);
    lemma_t(fun, name);
    lemma_t(arg, name);
    if let SpecTerm::App(f, a1) = fun {
        lemma_t(*a1, name);
    }
}

proof fn lemma_a(a: SpecAbs, name: Seq<char>)
    requires
        alam_free(a),
    ensures
        abs_a(a, name) is Ok,
        alam_free(abs_a(a, name)->Ok_0),
    decreases max_leaf(a), 3nat, asize(a),
{
    reveal_with_fuel(alam_free, 5);
    match a {
        SpecAbs::Term(t) => lemma_t(t, name),
        SpecAbs::Comb(_) => {},
        SpecAbs::App(fun, arg) => {
            lemma_a(*fun, name);
            lemma_a(*arg, name);
            if let SpecAbs::App(f, a1) = *fun {
                assert(max_leaf(*a1) <= max_leaf(*fun));
                assert(asize(*a1) < asize(*fun));
                lemma_a(*a1, name);
            }
        },
    }
}

proof fn lemma_reduce_lam_free(a: SpecAbs)
    requires
        alam_free(a),
    ensures
        alam_free(reduce_spec(a)),
    decreases a,
{
    if let SpecAbs::App(f, x) = a {
        lemma_reduce_lam_free(*f);
        lemma_reduce_lam_free(*x);
    }
}

proof fn lemma_lower_lam_free(a: SpecAbs, names: Seq<Seq<char>>)
    requires
        alam_free(a),
    ensures
        lam_free(lower(a, names)),
    decreases a,
{
    if let SpecAbs::App(f, x) = a {
        lemma_lower_lam_free(*f, names);
        lemma_lower_lam_free(*x, names);
    }
}

/// Extracting a named lambda whose body holds no lambda, channel or
/// superposition leaves no lambda at all: the result is closed combinator
/// code over the body's own subterms.
pub proof fn lemma_extract_closed(n: Seq<char>, bod: SpecTerm, names: Seq<Seq<char>>)
    requires
        lam_free(bod),
    ensures
        extract(SpecTerm::Lam(Some(n), Box::new(bod)), names) is Ok,
        lam_free(extract(SpecTerm::Lam(Some(n), Box::new(bod)), names)->Ok_0),
{
    reveal(extract);
    lemma_no_channel(bod, n);
    lemma_t(bod, n);
    let r = abs_t(bod, n)->Ok_0;
    lemma_reduce_lam_free(r);
    lemma_lower_lam_free(reduce_spec(r), names);
}

proof fn lemma_no_channel(t: SpecTerm, n: Seq<char>)
    requires
        lam_free(t),
    ensures
        !crate::term::channel(t, n, false),
    decreases t,
{
    match t {
        SpecTerm::App(f, a) => {
            lemma_no_channel(*f, n);
            lemma_no_channel(*a, n);
        },
        SpecTerm::Let(_, v, x) => {
            lemma_no_channel(*v, n);
            lemma_no_channel(*x, n);
        },
        SpecTerm::Dup(fst, snd, v, x) => {
            lemma_no_channel(*v, n);
            lemma_no_channel(*x, n);
            if fst is Some {
                lemma_no_channel(*x, fst->0);
            }
            if snd is Some {
                lemma_no_channel(*x, snd->0);
            }
        },
        _ => {},
    }
}

/// Every lambda is named and its body is lambda-free; no channel and no
/// superposition appear.
pub open spec fn flat_lambdas(t: SpecTerm) -> bool
    decreases t,
{
    match t {
        SpecTerm::Lam(Some(_), b) => lam_free(*b),
        SpecTerm::Lam(None, _) => false,
        SpecTerm::Chn(_, _) => false,
        SpecTerm::Sup(_, _) => false,
        SpecTerm::App(f, a) => flat_lambdas(*f) && flat_lambdas(*a),
        SpecTerm::Let(_, v, x) => flat_lambdas(*v) && flat_lambdas(*x),
        SpecTerm::Dup(_, _, v, x) => flat_lambdas(*v) && flat_lambdas(*x),
        _ => true,
    }
}

/// Closedness of the walk: on a term whose lambdas are named and have
/// lambda-free bodies, the walk succeeds and leaves no lambda, except a
/// root lambda with a simple body, which it keeps as it is.
pub proof fn lemma_walk_closed(t: SpecTerm, root: bool, names: Seq<Seq<char>>)
    requires
        flat_lambdas(t),
    ensures
        walk(t, root, names) is Ok,
        (root && t is Lam && simple(*t->Lam_1) && walk(t, root, names) == Ok::<
            SpecTerm,
            crate::abstraction::AbsError,
        >(t)) || lam_free(walk(t, root, names)->Ok_0),
    decreases t,
{
    match t {
        SpecTerm::Lam(Some(n), b) => {
            if !(root && simple(*b)) {
                lemma_extract_closed(n, *b, names);
            }
        },
        SpecTerm::App(f, a) => {
            lemma_walk_closed(*f, false, names);
            lemma_walk_closed(*a, false, names);
        },
        SpecTerm::Let(_, v, x) => {
            lemma_walk_closed(*v, false, names);
            lemma_walk_closed(*x, false, names);
        },
        SpecTerm::Dup(_, _, v, x) => {
            lemma_walk_closed(*v, false, names);
            lemma_walk_closed(*x, false, names);
        },
        _ => {},
    }
}

proof fn lemma_elim_t(t: SpecTerm, name: Seq<char>)
    requires
        lam_free(t),
    ensures
        !aoccurs(abs_t(t, name)->Ok_0, name),
    decreases size(t), 2nat, 0nat,
{
    reveal_with_fuel(aoccurs, 3);
    lemma_t(t, name);
    if occurs(t, name) {
        match t {
            SpecTerm::App(f, a) => lemma_elim_app(*f, *a, name),
            SpecTerm::Dup(fst, snd, val, nxt) => {
                if fst is Some && snd is Some {
                    let nxt2 = rename(*nxt, snd->0, fst->0);
                    lemma_rename_size(*nxt, snd->0, fst->0);
                    lemma_rename_lam_free(*nxt, snd->0, fst->0);
                    lemma_if(nxt2, fst->0);
                    lemma_bound_if(nxt2, fst->0);
                    lemma_elim_tail(abs_if(nxt2, fst->0)->Ok_0, *val, size(t), name);
                } else if fst is Some {
                    lemma_if(*nxt, fst->0);
                    lemma_bound_if(*nxt, fst->0);
                    lemma_elim_tail(abs_if(*nxt, fst->0)->Ok_0, *val, size(t), name);
                } else if snd is Some {
                    lemma_if(*nxt, snd->0);
                    lemma_bound_if(*nxt, snd->0);
                    lemma_elim_tail(abs_if(*nxt, snd->0)->Ok_0, *val, size(t), name);
                } else {
                    lemma_elim_t(*nxt, name);
                }
            },
            SpecTerm::Let(n, val, nxt) => {
                lemma_if(*nxt, n);
                lemma_bound_if(*nxt, n);
                lemma_elim_tail(abs_if(*nxt, n)->Ok_0, *val, size(t), name);
            },
            _ => {},
        }
    }
}

proof fn lemma_elim_tail(r: SpecAbs, val: SpecTerm, bound: nat, name: Seq<char>)
    requires
        alam_free(r),
        lam_free(val),
        max_leaf(r) < bound,
        crate::term::size(val) < bound,
    ensures
        !aoccurs(let_tail(r, val, bound, name)->Ok_0, name),
    decreases bound, 1nat, 0nat,
{
    let x = SpecAbs::App(Box::new(r), Box::new(SpecAbs::Term(val)));
    assert(alam_free(SpecAbs::Term(val)));
    assert(max_leaf(SpecAbs::Term(val)) == crate::term::size(val));
    assert(max_leaf(x) < bound);
    lemma_elim_a(x, name);
}

proof fn lemma_elim_app(fun: SpecTerm, arg: SpecTerm, name: Seq<char>)
    requires
        lam_free(fun),
        lam_free(arg),
    ensures
        !aoccurs(abs_app(fun, arg, name)->Ok_0, name),
    decreases 1 + size(fun) + size(arg), 1nat, 0nat,
{
    reveal_with_fuel(aoccurs, 5);
    reveal_with_fuel(occurs, 2);
    lemma_elim_t(fun, name);
    lemma_elim_t(arg, name);
    lemma_t(fun, name);
    lemma_t(arg, name);
    if let SpecTerm::App(f, a1) = fun {
        lemma_elim_t(*a1, name);
        lemma_t(*a1, name);
    }
}

proof fn lemma_elim_a(a: SpecAbs, name: Seq<char>)
    requires
        alam_free(a),
    ensures
        !aoccurs(abs_a(a, name)->Ok_0, name),
    decreases max_leaf(a), 3nat, asize(a),
{
    reveal_with_fuel(aoccurs, 5);
    reveal_with_fuel(alam_free, 3);
    lemma_a(a, name);
    match a {
        SpecAbs::Term(t) => lemma_elim_t(t, name),
        SpecAbs::Comb(_) => {},
        SpecAbs::App(fun, arg) => {
            lemma_elim_a(*fun, name);
            lemma_elim_a(*arg, name);
            lemma_a(*fun, name);
            lemma_a(*arg, name);
            if let SpecAbs::App(f, a1) = *fun {
                assert(max_leaf(*a1) <= max_leaf(*fun));
                assert(asize(*a1) < asize(*fun));
                lemma_elim_a(*a1, name);
                lemma_a(*a1, name);
            }
        },
    }
}

/// Elimination: abstracting a lambda-free term by `name` succeeds, and
/// `name` no longer occurs free in the result.
pub proof fn lemma_eliminates(t: SpecTerm, name: Seq<char>)
    requires
        lam_free(t),
    ensures
        abs_t(t, name) is Ok,
        !aoccurs(abs_t(t, name)->Ok_0, name),
{
    lemma_t(t, name);
    lemma_elim_t(t, name);
}

} // verus!
