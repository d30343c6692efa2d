use vstd::prelude::*;
use crate::term::{DefId, SpecTerm, Term};

verus! {

/// The table of definition names; a definition's id is the index of its name.
pub struct DefNames {
    names: Vec<String>,
}

/// The id that `name` resolves to: the latest entry under that name.
pub open spec fn lookup(names: Seq<Seq<char>>, name: Seq<char>) -> Option<nat>
    decreases names.len(),
{
    if names.len() == 0 {
        None
    } else if names.last() == name {
        Some((names.len() - 1) as nat)
    } else {
        lookup(names.drop_last(), name)
    }
}

impl View for DefNames {
    type V = Seq<Seq<char>>;

    closed spec fn view(&self) -> Seq<Seq<char>> {
        self.names@.map_values(|s: String| s@)
    }
}

impl DefNames {
    /// The table is a vector, so its length fits in a `usize`.
    pub proof fn lemma_len_bound(&self)
        ensures
            self@.len() <= usize::MAX,
    {
        broadcast use vstd::std_specs::vec::axiom_spec_len;

        assert(self.names.len() == self.names@.len());
    }

    /// An empty table.
    pub fn new() -> (r: DefNames)
        ensures
            r@ == Seq::<Seq<char>>::empty(),
    {
        let r = DefNames { names: Vec::new() };
        assert(r@ =~= Seq::<Seq<char>>::empty());
        r
    }

    /// Number of names in the table.
    pub fn len(&self) -> (r: usize)
        ensures
            r == self@.len(),
    {
        self.names.len()
    }

    /// Adds `name` under a fresh id, which is returned.
    pub fn insert(&mut self, name: String) -> (r: DefId)
        requires
            old(self)@.len() < usize::MAX,
        ensures
            r == old(self)@.len(),
            final(self)@ == old(self)@.push(name@),
    {
        let r = self.names.len();
        self.names.push(name);
        assert(self@ =~= old(self)@.push(name@));
        r
    }

    /// The id that `name` resolves to, if any.
    pub fn def_id(&self, name: &str) -> (r: Option<DefId>)
        ensures
            match lookup(self@, name@) {
                Some(i) => r is Some && r->0 == i,
                None => r is None,
            },
    {
        let mut i: usize = self.names.len();
        let ghost key = name@;
        let owned = name.to_owned();
        assert(self@.len() == self.names@.len());
        assert(self@.subrange(0, i as int) =~= self@);
        while i > 0
            invariant
                i <= self.names@.len(),
                owned@ == key,
                key == name@,
                lookup(self@, key) == lookup(self@.subrange(0, i as int), key),
            decreases i,
        {
            let ghost pre = self@.subrange(0, i as int);
            assert(pre.last() == self.names@[i - 1]@);
            if self.names[i - 1] == owned {
                assert(lookup(pre, key) == Some((i - 1) as nat));
                return Some(i - 1);
            }
            assert(pre.drop_last() =~= self@.subrange(0, i - 1));
            i = i - 1;
        }
        assert(self@.subrange(0, 0) =~= Seq::<Seq<char>>::empty());
        None
    }

    /// The name registered under `id`, if any.
    pub fn name(&self, id: DefId) -> (r: Option<&String>)
        ensures
            id < self@.len() ==> r is Some && r->0@ == self@[id as int],
            id >= self@.len() ==> r is None,
    {
        if id < self.names.len() {
            Some(&self.names[id])
        } else {
            None
        }
    }
}

/// One rule of a definition.
pub struct Rule {
    pub def_id: DefId,
    pub body: Term,
}

/// A definition: an id and its ordered rules.
pub struct Definition {
    pub def_id: DefId,
    pub rules: Vec<Rule>,
}

/// The program: its definitions and the name table.
pub struct DefinitionBook {
    pub defs: Vec<Definition>,
    pub def_names: DefNames,
}

/// `d` is the definition `id` with the one rule whose body is `body`.
pub open spec fn is_single_rule(d: Definition, id: DefId, body: SpecTerm) -> bool {
    &&& d.def_id == id
    &&& d.rules@.len() == 1
    &&& d.rules@[0].def_id == id
    &&& d.rules@[0].body@ == body
}

/// Every definition id in `defs` names an entry of a table of `n` names.
pub open spec fn ids_below(defs: Seq<Definition>, n: nat) -> bool {
    forall|i: int| 0 <= i < defs.len() ==> #[trigger] defs[i].def_id < n
}

impl DefinitionBook {
    /// Well-formedness: each definition's id is registered in the name table.
    pub open spec fn wf(&self) -> bool {
        ids_below(self.defs@, self.def_names@.len())
    }

    /// A book with no definitions.
    pub fn new() -> (r: DefinitionBook)
        ensures
            r.defs@.len() == 0,
            r.def_names@.len() == 0,
            r.wf(),
    {
        DefinitionBook { defs: Vec::new(), def_names: DefNames::new() }
    }

    /// Registers `name` and builds, without adding it, its one-rule definition.
    pub fn register(&mut self, name: &str, body: Term) -> (r: Definition)
        requires
            old(self).def_names@.len() < usize::MAX,
        ensures
            final(self).def_names@ == old(self).def_names@.push(name@),
            final(self).defs == old(self).defs,
            is_single_rule(r, old(self).def_names@.len() as DefId, body@),
    {
        let def_id = self.def_names.insert(name.to_owned());
        let mut rules: Vec<Rule> = Vec::new();
        rules.push(Rule { def_id, body });
        Definition { def_id, rules }
    }
}

} // verus!
