use vstd::prelude::*;
use crate::abstraction::{abs_app, abs_t, ap, call2, call3, comb, leaf, AbsError, Combinator, SpecAbs};
use crate::extraction::reduce_spec;
use crate::book::{is_single_rule, Definition, DefinitionBook};
use crate::registry::{are_combinators, comb_at, comb_body, comb_names};
use crate::term::{occurs, SpecTerm};

verus! {

/// Eta shortcut: abstracting `fun name` by `name`, where `fun` does not
/// mention `name`, gives `fun` itself, with no combinator or application
/// around it.
pub proof fn lemma_eta_shortcut(fun: SpecTerm, name: Seq<char>)
    requires
        !occurs(fun, name),
    ensures
        abs_t(SpecTerm::App(Box::new(fun), Box::new(SpecTerm::Var(name))), name) == Ok::<
            SpecAbs,
            AbsError,
        >(leaf(fun)),
{
    let t = SpecTerm::App(Box::new(fun), Box::new(SpecTerm::Var(name)));
    assert(occurs(SpecTerm::Var(name), name));
    assert(occurs(t, name));
    assert(abs_app(fun, SpecTerm::Var(name), name) == Ok::<SpecAbs, AbsError>(leaf(fun)));
}

/// Registering the combinators twice on one book gives two sets of eight
/// definitions: no id of the first set is an id of the second, and the
/// bodies are the same, one by one.
pub proof fn lemma_register_twice(
    b0: DefinitionBook,
    b1: DefinitionBook,
    b2: DefinitionBook,
    first: Seq<Definition>,
    second: Seq<Definition>,
)
    requires
        b1.def_names@ == b0.def_names@ + comb_names(),
        are_combinators(first, b0.def_names@.len()),
        b2.def_names@ == b1.def_names@ + comb_names(),
        are_combinators(second, b1.def_names@.len()),
    ensures
        forall|i: int, j: int|
            0 <= i < 8 && 0 <= j < 8 ==> #[trigger] first[i].def_id != #[trigger] second[j].def_id,
        forall|i: int| 0 <= i < 8 ==> #[trigger] first[i].rules@[0].body@ == second[i].rules@[0].body@,
        forall|i: int, j: int|
            0 <= i < j < 8 ==> #[trigger] first[i].def_id != #[trigger] first[j].def_id,
{
    assert(comb_names().len() == 8);
    b2.def_names.lemma_len_bound();
    assert forall|i: int, j: int| 0 <= i < 8 && 0 <= j < 8 implies #[trigger] first[i].def_id
        != #[trigger] second[j].def_id by {
        assert(is_single_rule(first[i], (b0.def_names@.len() + i) as usize, comb_body(comb_at(i))));
        assert(is_single_rule(second[j], (b1.def_names@.len() + j) as usize, comb_body(comb_at(j))));
    }
    assert forall|i: int| 0 <= i < 8 implies #[trigger] first[i].rules@[0].body@ == second[i].rules@[0].body@ by {
        assert(is_single_rule(first[i], (b0.def_names@.len() + i) as usize, comb_body(comb_at(i))));
        assert(is_single_rule(second[i], (b1.def_names@.len() + i) as usize, comb_body(comb_at(i))));
    }
    assert forall|i: int, j: int| 0 <= i < j < 8 implies #[trigger] first[i].def_id != #[trigger] first[j].def_id by {
        assert(is_single_rule(first[i], (b0.def_names@.len() + i) as usize, comb_body(comb_at(i))));
        assert(is_single_rule(first[j], (b0.def_names@.len() + j) as usize, comb_body(comb_at(j))));
    }
}

/// The reducer rewrites each of its three redexes to the combinator that the
/// calculus lemmas show it equal to: `C_ C_ I I` to `C`, `C_ S_ I I` to `S`,
/// `C_ (C I) I` to `I`.
pub proof fn lemma_reduce_redexes()
    ensures
        reduce_spec(call3(Combinator::C_, comb(Combinator::C_), comb(Combinator::I), comb(Combinator::I)))
            == comb(Combinator::C),
        reduce_spec(call3(Combinator::C_, comb(Combinator::S_), comb(Combinator::I), comb(Combinator::I)))
            == comb(Combinator::S),
        reduce_spec(
            call2(Combinator::C_, ap(comb(Combinator::C), comb(Combinator::I)), comb(Combinator::I)),
        ) == comb(Combinator::I),
{
}

} // verus!
