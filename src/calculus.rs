use vstd::prelude::*;
use crate::abstraction::{ap, call2, call3, comb, leaf, Combinator, SpecAbs};
use crate::extraction::lower;
use crate::registry::comb_body;
use crate::term::SpecTerm;

verus! {

/// How many arguments a combinator takes before it fires.
pub open spec fn arity(c: Combinator) -> nat {
    match c {
        Combinator::K => 2,
        Combinator::I => 1,
        Combinator::B => 3,
        Combinator::C => 3,
        Combinator::S => 3,
        _ => 4,
    }
}

/// The rule of each combinator, on exactly its arguments; the same rules as
/// the registered definition bodies.
pub open spec fn fire(c: Combinator, xs: Seq<SpecAbs>) -> SpecAbs {
    match c {
        Combinator::K => xs[0],
        Combinator::I => xs[0],
        Combinator::B => ap(xs[0], ap(xs[1], xs[2])),
        Combinator::C => ap(ap(xs[0], xs[2]), xs[1]),
        Combinator::S => ap(ap(xs[0], xs[2]), ap(xs[1], xs[2])),
        Combinator::B_ => ap(ap(xs[0], xs[1]), ap(xs[2], xs[3])),
        Combinator::C_ => ap(ap(xs[0], ap(xs[1], xs[3])), xs[2]),
        Combinator::S_ => ap(ap(xs[0], ap(xs[1], xs[3])), ap(xs[2], xs[3])),
    }
}

/// `h` applied to each of `xs` in turn.
pub open spec fn apply_all(h: SpecAbs, xs: Seq<SpecAbs>) -> SpecAbs
    decreases xs.len(),
{
    if xs.len() == 0 {
        h
    } else {
        ap(apply_all(h, xs.drop_last()), xs.last())
    }
}

/// The head of an application spine.
pub open spec fn spine_head(a: SpecAbs) -> SpecAbs
    decreases a,
{
    match a {
        SpecAbs::App(f, _) => spine_head(*f),
        _ => a,
    }
}

/// The arguments of an application spine, in order.
pub open spec fn spine_args(a: SpecAbs) -> Seq<SpecAbs>
    decreases a,
{
    match a {
        SpecAbs::App(f, x) => spine_args(*f).push(*x),
        _ => Seq::empty(),
    }
}

/// One rewrite at the head: a combinator with enough arguments fires.
pub open spec fn head_step(a: SpecAbs) -> Option<SpecAbs> {
    match spine_head(a) {
        SpecAbs::Comb(c) => {
            let xs = spine_args(a);
            if xs.len() >= arity(c) {
                Some(apply_all(fire(c, xs.take(arity(c) as int)), xs.skip(arity(c) as int)))
            } else {
                None
            }
        },
        _ => None,
    }
}

/// One rewrite anywhere in the expression.
pub open spec fn step(a: SpecAbs, b: SpecAbs) -> bool
    decreases a,
{
    head_step(a) == Some(b) || match (a, b) {
        (SpecAbs::App(f, x), SpecAbs::App(g, y)) => (step(*f, *g) && x == y) || (f == g && step(
            *x,
            *y,
        )),
        _ => false,
    }
}

/// `path` is a rewrite sequence from `a` to `b`.
pub open spec fn reduces(a: SpecAbs, b: SpecAbs, path: Seq<SpecAbs>) -> bool {
    &&& path.len() >= 1
    &&& path[0] == a
    &&& path.last() == b
    &&& forall|i: int| 0 <= i < path.len() - 1 ==> #[trigger] step(path[i], path[i + 1])
}

/// `a` and `b` rewrite to a common expression.
pub open spec fn joinable(a: SpecAbs, b: SpecAbs) -> bool {
    exists|w: SpecAbs, p: Seq<SpecAbs>, q: Seq<SpecAbs>| reduces(a, w, p) && reduces(b, w, q)
}

proof fn lemma_spine(h: SpecAbs, xs: Seq<SpecAbs>)
    requires
        h is Comb,
    ensures
        spine_head(apply_all(h, xs)) == h,
        spine_args(apply_all(h, xs)) == xs,
    decreases xs.len(),
{
    if xs.len() > 0 {
        lemma_spine(h, xs.drop_last());
        assert(xs.drop_last().push(xs.last()) =~= xs);
    }
}

proof fn lemma_head_step(c: Combinator, xs: Seq<SpecAbs>)
    requires
        xs.len() >= arity(c),
    ensures
        head_step(apply_all(comb(c), xs)) == Some(
            apply_all(fire(c, xs.take(arity(c) as int)), xs.skip(arity(c) as int)),
        ),
{
    lemma_spine(comb(c), xs);
}

proof fn lemma_apply_small(h: SpecAbs, x: SpecAbs, y: SpecAbs, z: SpecAbs)
    ensures
        apply_all(h, Seq::<SpecAbs>::empty()) == h,
        apply_all(h, seq![x]) == ap(h, x),
        apply_all(h, seq![x, y]) == ap(ap(h, x), y),
        apply_all(h, seq![x, y, z]) == ap(ap(ap(h, x), y), z),
{
    reveal_with_fuel(apply_all, 4);
    assert(seq![x].drop_last() =~= Seq::<SpecAbs>::empty());
    assert(seq![x, y].drop_last() =~= seq![x]);
    assert(seq![x, y, z].drop_last() =~= seq![x, y]);
}

proof fn lemma_four_steps(a: SpecAbs, b: SpecAbs, c: SpecAbs, d: SpecAbs, e: SpecAbs)
    requires
        step(a, b),
        step(b, c),
        step(c, d),
        step(d, e),
    ensures
        reduces(a, e, seq![a, b, c, d, e]),
{
    let p = seq![a, b, c, d, e];
    assert forall|i: int| 0 <= i < p.len() - 1 implies #[trigger] step(p[i], p[i + 1]) by {
        if i == 0 {
            assert(p[0] == a && p[1] == b);
        } else if i == 1 {
            assert(p[1] == b && p[2] == c);
        } else if i == 2 {
            assert(p[2] == c && p[3] == d);
        } else {
            assert(p[3] == d && p[4] == e);
        }
    }
}

proof fn lemma_one_step(a: SpecAbs, b: SpecAbs)
    requires
        step(a, b),
    ensures
        reduces(a, b, seq![a, b]),
{
    let p = seq![a, b];
    assert forall|i: int| 0 <= i < p.len() - 1 implies #[trigger] step(p[i], p[i + 1]) by {
        assert(p[0] == a && p[1] == b);
    }
}

/// The peephole rewrite `C_ C_ I I` to `C` is sound: applied to any three
/// arguments, the two sides rewrite to a common expression.
pub proof fn lemma_peephole_flip(x: SpecAbs, y: SpecAbs, z: SpecAbs)
    ensures
        joinable(
            apply_all(
                call3(Combinator::C_, comb(Combinator::C_), comb(Combinator::I), comb(Combinator::I)),
                seq![x, y, z],
            ),
            apply_all(comb(Combinator::C), seq![x, y, z]),
        ),
{
    let i = comb(Combinator::I);
    let lhs = call3(Combinator::C_, comb(Combinator::C_), i, i);
    let a0 = apply_all(lhs, seq![x, y, z]);
    let xs0 = seq![comb(Combinator::C_), i, i, x, y, z];
    lemma_apply_small(lhs, x, y, z);
    reveal_with_fuel(apply_all, 7);
    assert(xs0.drop_last() =~= seq![comb(Combinator::C_), i, i, x, y]);
    assert(xs0.drop_last().drop_last() =~= seq![comb(Combinator::C_), i, i, x]);
    assert(xs0.drop_last().drop_last().drop_last() =~= seq![comb(Combinator::C_), i, i]);
    assert(seq![comb(Combinator::C_), i, i].drop_last() =~= seq![comb(Combinator::C_), i]);
    assert(seq![comb(Combinator::C_), i].drop_last() =~= seq![comb(Combinator::C_)]);
    assert(seq![comb(Combinator::C_)].drop_last() =~= Seq::<SpecAbs>::empty());
    assert(a0 == apply_all(comb(Combinator::C_), xs0));
    lemma_head_step(Combinator::C_, xs0);
    assert(xs0.take(4) =~= seq![comb(Combinator::C_), i, i, x]);
    assert(xs0.skip(4) =~= seq![y, z]);
    let ix = ap(i, x);
    let xs1 = seq![ix, i, y, z];
    let a1 = apply_all(comb(Combinator::C_), xs1);
    assert(xs1.drop_last() =~= seq![ix, i, y]);
    assert(seq![ix, i, y].drop_last() =~= seq![ix, i]);
    assert(seq![ix, i].drop_last() =~= seq![ix]);
    assert(seq![ix].drop_last() =~= Seq::<SpecAbs>::empty());
    lemma_apply_small(fire(Combinator::C_, xs0.take(4)), y, z, z);
    assert(step(a0, a1));
    lemma_head_step(Combinator::C_, xs1);
    assert(xs1.take(4) =~= xs1);
    assert(xs1.skip(4) =~= Seq::<SpecAbs>::empty());
    let iz = ap(i, z);
    let xs2 = seq![x, iz, y];
    let a2 = apply_all(i, xs2);
    assert(xs2.drop_last() =~= seq![x, iz]);
    assert(seq![x, iz].drop_last() =~= seq![x]);
    assert(seq![x].drop_last() =~= Seq::<SpecAbs>::empty());
    assert(step(a1, a2));
    lemma_head_step(Combinator::I, xs2);
    assert(xs2.take(1) =~= seq![x]);
    assert(xs2.skip(1) =~= seq![iz, y]);
    let a3 = ap(ap(x, iz), y);
    lemma_apply_small(x, iz, y, y);
    assert(step(a2, a3));
    let w = ap(ap(x, z), y);
    lemma_head_step(Combinator::I, seq![z]);
    assert(seq![z].take(1) =~= seq![z]);
    assert(seq![z].skip(1) =~= Seq::<SpecAbs>::empty());
    assert(head_step(iz) == Some(z));
    assert(step(iz, z));
    assert(step(ap(x, iz), ap(x, z)));
    assert(step(a3, w));
    lemma_four_steps(a0, a1, a2, a3, w);
    let b0 = apply_all(comb(Combinator::C), seq![x, y, z]);
    lemma_head_step(Combinator::C, seq![x, y, z]);
    assert(seq![x, y, z].take(3) =~= seq![x, y, z]);
    assert(seq![x, y, z].skip(3) =~= Seq::<SpecAbs>::empty());
    assert(step(b0, w));
    lemma_one_step(b0, w);
}

/// The peephole rewrite `C_ S_ I I` to `S` is sound: applied to any three
/// arguments, the two sides rewrite to a common expression.
pub proof fn lemma_peephole_subst(x: SpecAbs, y: SpecAbs, z: SpecAbs)
    ensures
        joinable(
            apply_all(
                call3(Combinator::C_, comb(Combinator::S_), comb(Combinator::I), comb(Combinator::I)),
                seq![x, y, z],
            ),
            apply_all(comb(Combinator::S), seq![x, y, z]),
        ),
{
    let i = comb(Combinator::I);
    let s_ = comb(Combinator::S_);
    let lhs = call3(Combinator::C_, s_, i, i);
    let a0 = apply_all(lhs, seq![x, y, z]);
    let xs0 = seq![s_, i, i, x, y, z];
    lemma_apply_small(lhs, x, y, z);
    reveal_with_fuel(apply_all, 7);
    assert(xs0.drop_last() =~= seq![s_, i, i, x, y]);
    assert(xs0.drop_last().drop_last() =~= seq![s_, i, i, x]);
    assert(xs0.drop_last().drop_last().drop_last() =~= seq![s_, i, i]);
    assert(seq![s_, i, i].drop_last() =~= seq![s_, i]);
    assert(seq![s_, i].drop_last() =~= seq![s_]);
    assert(seq![s_].drop_last() =~= Seq::<SpecAbs>::empty());
    assert(a0 == apply_all(comb(Combinator::C_), xs0));
    lemma_head_step(Combinator::C_, xs0);
    assert(xs0.take(4) =~= seq![s_, i, i, x]);
    assert(xs0.skip(4) =~= seq![y, z]);
    let ix = ap(i, x);
    let xs1 = seq![ix, i, y, z];
    let a1 = apply_all(s_, xs1);
    assert(xs1.drop_last() =~= seq![ix, i, y]);
    assert(seq![ix, i, y].drop_last() =~= seq![ix, i]);
    assert(seq![ix, i].drop_last() =~= seq![ix]);
    assert(seq![ix].drop_last() =~= Seq::<SpecAbs>::empty());
    lemma_apply_small(fire(Combinator::C_, xs0.take(4)), y, z, z);
    assert(step(a0, a1));
    lemma_head_step(Combinator::S_, xs1);
    assert(xs1.take(4) =~= xs1);
    assert(xs1.skip(4) =~= Seq::<SpecAbs>::empty());
    let iz = ap(i, z);
    let yz = ap(y, z);
    let xs2 = seq![x, iz, yz];
    let a2 = apply_all(i, xs2);
    assert(xs2.drop_last() =~= seq![x, iz]);
    assert(seq![x, iz].drop_last() =~= seq![x]);
    assert(seq![x].drop_last() =~= Seq::<SpecAbs>::empty());
    assert(step(a1, a2));
    lemma_head_step(Combinator::I, xs2);
    assert(xs2.take(1) =~= seq![x]);
    assert(xs2.skip(1) =~= seq![iz, yz]);
    let a3 = ap(ap(x, iz), yz);
    lemma_apply_small(x, iz, yz, yz);
    assert(step(a2, a3));
    let w = ap(ap(x, z), yz);
    lemma_head_step(Combinator::I, seq![z]);
    assert(seq![z].take(1) =~= seq![z]);
    assert(seq![z].skip(1) =~= Seq::<SpecAbs>::empty());
    assert(head_step(iz) == Some(z));
    assert(step(iz, z));
    assert(step(ap(x, iz), ap(x, z)));
    assert(step(a3, w));
    lemma_four_steps(a0, a1, a2, a3, w);
    let b0 = apply_all(comb(Combinator::S), seq![x, y, z]);
    lemma_head_step(Combinator::S, seq![x, y, z]);
    assert(seq![x, y, z].take(3) =~= seq![x, y, z]);
    assert(seq![x, y, z].skip(3) =~= Seq::<SpecAbs>::empty());
    assert(step(b0, w));
    lemma_one_step(b0, w);
}

/// The peephole rewrite `C_ (C I) I` to `I` is sound: applied to any two
/// arguments, the two sides rewrite to a common expression.
pub proof fn lemma_peephole_identity(p: SpecAbs, q: SpecAbs)
    ensures
        joinable(
            apply_all(
                call2(Combinator::C_, ap(comb(Combinator::C), comb(Combinator::I)), comb(Combinator::I)),
                seq![p, q],
            ),
            apply_all(comb(Combinator::I), seq![p, q]),
        ),
{
    let i = comb(Combinator::I);
    let ci = ap(comb(Combinator::C), i);
    let lhs = call2(Combinator::C_, ci, i);
    let a0 = apply_all(lhs, seq![p, q]);
    let xs0 = seq![ci, i, p, q];
    lemma_apply_small(lhs, p, q, q);
    reveal_with_fuel(apply_all, 5);
    assert(xs0.drop_last() =~= seq![ci, i, p]);
    assert(seq![ci, i, p].drop_last() =~= seq![ci, i]);
    assert(seq![ci, i].drop_last() =~= seq![ci]);
    assert(seq![ci].drop_last() =~= Seq::<SpecAbs>::empty());
    assert(a0 == apply_all(comb(Combinator::C_), xs0));
    lemma_head_step(Combinator::C_, xs0);
    assert(xs0.take(4) =~= xs0);
    assert(xs0.skip(4) =~= Seq::<SpecAbs>::empty());
    let iq = ap(i, q);
    let xs1 = seq![i, iq, p];
    let a1 = apply_all(comb(Combinator::C), xs1);
    assert(xs1.drop_last() =~= seq![i, iq]);
    assert(seq![i, iq].drop_last() =~= seq![i]);
    assert(seq![i].drop_last() =~= Seq::<SpecAbs>::empty());
    assert(step(a0, a1));
    lemma_head_step(Combinator::C, xs1);
    assert(xs1.take(3) =~= xs1);
    assert(xs1.skip(3) =~= Seq::<SpecAbs>::empty());
    let xs2 = seq![p, iq];
    let a2 = apply_all(i, xs2);
    assert(xs2.drop_last() =~= seq![p]);
    assert(seq![p].drop_last() =~= Seq::<SpecAbs>::empty());
    assert(step(a1, a2));
    lemma_head_step(Combinator::I, xs2);
    assert(xs2.take(1) =~= seq![p]);
    assert(xs2.skip(1) =~= seq![iq]);
    let a3 = ap(p, iq);
    assert(step(a2, a3));
    let w = ap(p, q);
    lemma_head_step(Combinator::I, seq![q]);
    assert(seq![q].take(1) =~= seq![q]);
    assert(seq![q].skip(1) =~= Seq::<SpecAbs>::empty());
    assert(head_step(iq) == Some(q));
    assert(step(iq, q));
    assert(step(a3, w));
    lemma_four_steps(a0, a1, a2, a3, w);
    let b0 = apply_all(i, seq![p, q]);
    lemma_head_step(Combinator::I, seq![p, q]);
    assert(seq![p, q].take(1) =~= seq![p]);
    assert(seq![p, q].skip(1) =~= seq![q]);
    assert(step(b0, w));
    lemma_one_step(b0, w);
}

/// A term with its first `k` lambda binders taken off.
pub open spec fn under_binders(t: SpecTerm, k: nat) -> SpecTerm
    decreases k,
{
    if k == 0 {
        t
    } else {
        match t {
            SpecTerm::Lam(_, b) => under_binders(*b, (k - 1) as nat),
            _ => t,
        }
    }
}

/// The variables bound by the first `k` named lambdas of a term, in order.
pub open spec fn binder_vars(t: SpecTerm, k: nat) -> Seq<SpecAbs>
    decreases k,
{
    if k == 0 {
        Seq::empty()
    } else {
        match t {
            SpecTerm::Lam(Some(n), b) => seq![leaf(SpecTerm::Var(n))] + binder_vars(
                *b,
                (k - 1) as nat,
            ),
            _ => Seq::empty(),
        }
    }
}

/// The rule that the calculus gives each combinator is its registered
/// definition: the body under its binders is the rule applied to the
/// variables of those binders.
pub proof fn lemma_fire_is_body(c: Combinator, names: Seq<Seq<char>>)
    ensures
        binder_vars(comb_body(c), arity(c)).len() == arity(c),
        lower(fire(c, binder_vars(comb_body(c), arity(c))), names) == under_binders(
            comb_body(c),
            arity(c),
        ),
{
    reveal_with_fuel(under_binders, 5);
    reveal_with_fuel(binder_vars, 5);
    reveal_with_fuel(lower, 4);
    let vs = binder_vars(comb_body(c), arity(c));
    let x = leaf(SpecTerm::Var("x"@));
    let y = leaf(SpecTerm::Var("y"@));
    let z = leaf(SpecTerm::Var("z"@));
    let d = leaf(SpecTerm::Var("d"@));
    match c {
        Combinator::K => {
            assert(vs =~= seq![x, y]);
        },
        Combinator::I => {
            assert(vs =~= seq![x]);
        },
        Combinator::B | Combinator::C | Combinator::S => {
            assert(vs =~= seq![x, y, z]);
        },
        _ => {
            assert(vs =~= seq![d, x, y, z]);
        },
    }
}

} // verus!
