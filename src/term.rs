use vstd::prelude::*;
use vstd::string::StringExecFns;
use crate::book::DefNames;

verus! {

/// A definition identifier: the index of its name in the book's name table.
pub type DefId = usize;

/// The term language that the pass reads and rewrites.
#[derive(Debug, PartialEq, Eq)]
pub enum Term {
    Var { nam: String },
    Lam { nam: Option<String>, bod: Box<Term> },
    Chn { nam: String, bod: Box<Term> },
    Let { nam: String, val: Box<Term>, nxt: Box<Term> },
    App { fun: Box<Term>, arg: Box<Term> },
    Dup { fst: Option<String>, snd: Option<String>, val: Box<Term>, nxt: Box<Term> },
    Sup { fst: Box<Term>, snd: Box<Term> },
    Ref { def_id: DefId },
    Lnk { nam: String },
    Era,
}

/// Mathematical model of a [`Term`]: names are character sequences.
pub enum SpecTerm {
    Var(Seq<char>),
    Lam(Option<Seq<char>>, Box<SpecTerm>),
    Chn(Seq<char>, Box<SpecTerm>),
    Let(Seq<char>, Box<SpecTerm>, Box<SpecTerm>),
    App(Box<SpecTerm>, Box<SpecTerm>),
    Dup(Option<Seq<char>>, Option<Seq<char>>, Box<SpecTerm>, Box<SpecTerm>),
    Sup(Box<SpecTerm>, Box<SpecTerm>),
    Ref(DefId),
    Lnk(Seq<char>),
    Era,
}

pub open spec fn opt_view(o: Option<String>) -> Option<Seq<char>> {
    match o {
        Some(s) => Some(s@),
        None => None,
    }
}

/// The model of a term, node by node.
pub open spec fn term_view(t: Term) -> SpecTerm
    decreases t,
{
    match t {
        Term::Var { nam } => SpecTerm::Var(nam@),
        Term::Lam { nam, bod } => SpecTerm::Lam(opt_view(nam), Box::new(term_view(*bod))),
        Term::Chn { nam, bod } => SpecTerm::Chn(nam@, Box::new(term_view(*bod))),
        Term::Let { nam, val, nxt } => SpecTerm::Let(
            nam@,
            Box::new(term_view(*val)),
            Box::new(term_view(*nxt)),
        ),
        Term::App { fun, arg } => SpecTerm::App(
            Box::new(term_view(*fun)),
            Box::new(term_view(*arg)),
        ),
        Term::Dup { fst, snd, val, nxt } => SpecTerm::Dup(
            opt_view(fst),
            opt_view(snd),
            Box::new(term_view(*val)),
            Box::new(term_view(*nxt)),
        ),
        Term::Sup { fst, snd } => SpecTerm::Sup(
            Box::new(term_view(*fst)),
            Box::new(term_view(*snd)),
        ),
        Term::Ref { def_id } => SpecTerm::Ref(def_id),
        Term::Lnk { nam } => SpecTerm::Lnk(nam@),
        Term::Era => SpecTerm::Era,
    }
}

impl View for Term {
    type V = SpecTerm;

    open spec fn view(&self) -> SpecTerm {
        term_view(*self)
    }
}

/// True when the optional binder is present and equal to `name`.
pub open spec fn binds(o: Option<Seq<char>>, name: Seq<char>) -> bool {
    o == Some(name)
}

/// Free occurrence of `name` in `t`.
pub open spec fn occurs(t: SpecTerm, name: Seq<char>) -> bool
    decreases t,
{
    match t {
        SpecTerm::Var(n) => n == name,
        SpecTerm::Lam(n, bod) => !binds(n, name) && occurs(*bod, name),
        SpecTerm::Chn(_, bod) => occurs(*bod, name),
        SpecTerm::App(fun, arg) => occurs(*fun, name) || occurs(*arg, name),
        SpecTerm::Sup(fst, snd) => occurs(*fst, name) || occurs(*snd, name),
        SpecTerm::Let(n, val, nxt) => occurs(*val, name) || (n != name && occurs(*nxt, name)),
        SpecTerm::Dup(fst, snd, val, nxt) => occurs(*val, name) || (!binds(fst, name) && !binds(
            snd,
            name,
        ) && occurs(*nxt, name)),
        SpecTerm::Ref(_) => false,
        SpecTerm::Lnk(_) => false,
        SpecTerm::Era => false,
    }
}

/// Number of nodes; a variable counts one, so renaming keeps it.
pub open spec fn size(t: SpecTerm) -> nat
    decreases t,
{
    match t {
        SpecTerm::Lam(_, bod) => 1 + size(*bod),
        SpecTerm::Chn(_, bod) => 1 + size(*bod),
        SpecTerm::App(fun, arg) => 1 + size(*fun) + size(*arg),
        SpecTerm::Sup(fst, snd) => 1 + size(*fst) + size(*snd),
        SpecTerm::Let(_, val, nxt) => 1 + size(*val) + size(*nxt),
        SpecTerm::Dup(_, _, val, nxt) => 1 + size(*val) + size(*nxt),
        _ => 1,
    }
}

/// Whether an occurrence of `name` lies beneath a channel node; a duplicated
/// value that holds `name` passes the property on to its aliases.
pub open spec fn channel(t: SpecTerm, name: Seq<char>, inside: bool) -> bool
    decreases t,
{
    match t {
        SpecTerm::Var(n) => inside && n == name,
        SpecTerm::Lam(n, bod) => !binds(n, name) && channel(*bod, name, inside),
        SpecTerm::Chn(_, bod) => channel(*bod, name, true),
        SpecTerm::App(fun, arg) => channel(*fun, name, inside) || channel(*arg, name, inside),
        SpecTerm::Sup(fst, snd) => channel(*fst, name, inside) || channel(*snd, name, inside),
        SpecTerm::Let(n, val, nxt) => channel(*val, name, inside) || (n != name && channel(
            *nxt,
            name,
            inside,
        )),
        SpecTerm::Dup(fst, snd, val, nxt) => (occurs(*val, name) && ((fst is Some && channel(
            *nxt,
            fst->0,
            inside,
        )) || (snd is Some && channel(*nxt, snd->0, inside)))) || channel(*val, name, inside) || (
        !binds(fst, name) && !binds(snd, name) && channel(*nxt, name, inside)),
        SpecTerm::Ref(_) => false,
        SpecTerm::Lnk(_) => false,
        SpecTerm::Era => false,
    }
}

/// A term with no sharing and no let-bound computation.
pub open spec fn simple(t: SpecTerm) -> bool
    decreases t,
{
    match t {
        SpecTerm::Var(_) => true,
        SpecTerm::Lam(_, bod) => simple(*bod),
        SpecTerm::Chn(_, bod) => simple(*bod),
        SpecTerm::Lnk(_) => true,
        SpecTerm::Ref(_) => true,
        SpecTerm::Era => true,
        SpecTerm::App(fun, arg) => simple(*fun) && simple(*arg),
        _ => false,
    }
}

/// Replaces each free variable `from` by the variable `to`.
pub open spec fn rename(t: SpecTerm, from: Seq<char>, to: Seq<char>) -> SpecTerm
    decreases t,
{
    match t {
        SpecTerm::Var(n) => if n == from {
            SpecTerm::Var(to)
        } else {
            t
        },
        SpecTerm::Lam(n, bod) => if binds(n, from) {
            t
        } else {
            SpecTerm::Lam(n, Box::new(rename(*bod, from, to)))
        },
        SpecTerm::Chn(n, bod) => SpecTerm::Chn(n, Box::new(rename(*bod, from, to))),
        SpecTerm::App(fun, arg) => SpecTerm::App(
            Box::new(rename(*fun, from, to)),
            Box::new(rename(*arg, from, to)),
        ),
        SpecTerm::Sup(fst, snd) => SpecTerm::Sup(
            Box::new(rename(*fst, from, to)),
            Box::new(rename(*snd, from, to)),
        ),
        SpecTerm::Let(n, val, nxt) => SpecTerm::Let(
            n,
            Box::new(rename(*val, from, to)),
            if n == from {
                nxt
            } else {
                Box::new(rename(*nxt, from, to))
            },
        ),
        SpecTerm::Dup(fst, snd, val, nxt) => SpecTerm::Dup(
            fst,
            snd,
            Box::new(rename(*val, from, to)),
            if binds(fst, from) || binds(snd, from) {
                nxt
            } else {
                Box::new(rename(*nxt, from, to))
            },
        ),
        _ => t,
    }
}

/// Renaming a variable keeps the number of nodes.
pub proof fn lemma_rename_size(t: SpecTerm, from: Seq<char>, to: Seq<char>)
    ensures
        size(rename(t, from, to)) == size(t),
    decreases t,
{
    match t {
        SpecTerm::Lam(_, bod) => lemma_rename_size(*bod, from, to),
        SpecTerm::Chn(_, bod) => lemma_rename_size(*bod, from, to),
        SpecTerm::App(fun, arg) => {
            lemma_rename_size(*fun, from, to);
            lemma_rename_size(*arg, from, to);
        },
        SpecTerm::Sup(fst, snd) => {
            lemma_rename_size(*fst, from, to);
            lemma_rename_size(*snd, from, to);
        },
        SpecTerm::Let(_, val, nxt) => {
            lemma_rename_size(*val, from, to);
            lemma_rename_size(*nxt, from, to);
        },
        SpecTerm::Dup(_, _, val, nxt) => {
            lemma_rename_size(*val, from, to);
            lemma_rename_size(*nxt, from, to);
        },
        _ => {},
    }
}

/// A binder as printed: its name, or `*` when it is absent.
pub open spec fn show_binder(o: Option<Seq<char>>) -> Seq<char> {
    match o {
        Some(n) => n,
        None => "*"@,
    }
}

/// The printed form of a term; a reference prints as its definition's name.
pub open spec fn show_term(t: SpecTerm, names: Seq<Seq<char>>) -> Seq<char>
    decreases t,
{
    match t {
        SpecTerm::Var(n) => n,
        SpecTerm::Lam(n, b) => "λ"@ + show_binder(n) + " "@ + show_term(*b, names),
        SpecTerm::Chn(n, b) => "λ$"@ + n + " "@ + show_term(*b, names),
        SpecTerm::Let(n, v, x) => "let "@ + n + " = "@ + show_term(*v, names) + "; "@ + show_term(
            *x,
            names,
        ),
        SpecTerm::App(f, a) => "("@ + show_term(*f, names) + " "@ + show_term(*a, names) + ")"@,
        SpecTerm::Dup(f, s, v, x) => "dup "@ + show_binder(f) + " "@ + show_binder(s) + " = "@
            + show_term(*v, names) + "; "@ + show_term(*x, names),
        SpecTerm::Sup(a, b) => "{"@ + show_term(*a, names) + " "@ + show_term(*b, names) + "}"@,
        SpecTerm::Ref(id) => if id < names.len() {
            names[id as int]
        } else {
            "?"@
        },
        SpecTerm::Lnk(n) => "$"@ + n,
        SpecTerm::Era => "*"@,
    }
}

fn push_binder(out: &mut String, o: &Option<String>)
    ensures
        final(out)@ == old(out)@ + show_binder(opt_view(*o)),
{
    match o {
        Some(n) => out.append(n.as_str()),
        None => out.append("*"),
    }
}

impl Term {
    fn write_to(&self, out: &mut String, names: &DefNames)
        ensures
            final(out)@ == old(out)@ + show_term(self@, names@),
        decreases self,
    {
        let ghost start = out@;
        match self {
            Term::Var { nam } => out.append(nam.as_str()),
            Term::Lam { nam, bod } => {
                out.append("λ");
                push_binder(out, nam);
                out.append(" ");
                bod.write_to(out, names);
            },
            Term::Chn { nam, bod } => {
                out.append("λ$");
                out.append(nam.as_str());
                out.append(" ");
                bod.write_to(out, names);
            },
            Term::Let { nam, val, nxt } => {
                out.append("let ");
                out.append(nam.as_str());
                out.append(" = ");
                val.write_to(out, names);
                out.append("; ");
                nxt.write_to(out, names);
            },
            Term::App { fun, arg } => {
                out.append("(");
                fun.write_to(out, names);
                out.append(" ");
                arg.write_to(out, names);
                out.append(")");
            },
            Term::Dup { fst, snd, val, nxt } => {
                out.append("dup ");
                push_binder(out, fst);
                out.append(" ");
                push_binder(out, snd);
                out.append(" = ");
                val.write_to(out, names);
                out.append("; ");
                nxt.write_to(out, names);
            },
            Term::Sup { fst, snd } => {
                out.append("{");
                fst.write_to(out, names);
                out.append(" ");
                snd.write_to(out, names);
                out.append("}");
            },
            Term::Ref { def_id } => match names.name(*def_id) {
                Some(n) => out.append(n.as_str()),
                None => out.append("?"),
            },
            Term::Lnk { nam } => {
                out.append("$");
                out.append(nam.as_str());
            },
            Term::Era => out.append("*"),
        }
        proof {
            assert(out@ =~= start + show_term(self@, names@));
        }
    }

    /// The printed form of the term.
    pub fn to_string(&self, names: &DefNames) -> (r: String)
        ensures
            r@ == show_term(self@, names@),
    {
        let mut out = String::new();
        self.write_to(&mut out, names);
        proof {
            assert(out@ =~= show_term(self@, names@));
        }
        out
    }
}

fn same_name(a: &String, b: &str) -> (r: bool)
    ensures
        r == (a@ == b@),
{
    let b2 = b.to_owned();
    *a == b2
}

fn binds_name(o: &Option<String>, name: &str) -> (r: bool)
    ensures
        r == binds(opt_view(*o), name@),
{
    match o {
        Some(n) => same_name(n, name),
        None => false,
    }
}

impl Term {
    /// Whether `name` occurs free in this term.
    pub fn occours_check(&self, name: &str) -> (r: bool)
        ensures
            r == occurs(self@, name@),
        decreases self,
    {
        match self {
            Term::Var { nam } => same_name(nam, name),
            Term::Lam { nam, bod } => !binds_name(nam, name) && bod.occours_check(name),
            Term::Chn { nam: _, bod } => bod.occours_check(name),
            Term::App { fun, arg } => fun.occours_check(name) || arg.occours_check(name),
            Term::Sup { fst, snd } => fst.occours_check(name) || snd.occours_check(name),
            Term::Let { nam, val, nxt } => val.occours_check(name) || (!same_name(nam, name)
                && nxt.occours_check(name)),
            Term::Dup { fst, snd, val, nxt } => val.occours_check(name) || (!binds_name(fst, name)
                && !binds_name(snd, name) && nxt.occours_check(name)),
            Term::Lnk { .. } => false,
            Term::Ref { .. } => false,
            Term::Era => false,
        }
    }

    /// Whether `name` occurs beneath a channel node of this term.
    pub fn channel_check(&self, name: &str, inside_chn: bool) -> (r: bool)
        ensures
            r == channel(self@, name@, inside_chn),
        decreases self,
    {
        match self {
            Term::Var { nam } => inside_chn && same_name(nam, name),
            Term::Lam { nam, bod } => !binds_name(nam, name) && bod.channel_check(name, inside_chn),
            Term::Chn { nam: _, bod } => bod.channel_check(name, true),
            Term::App { fun, arg } => fun.channel_check(name, inside_chn) || arg.channel_check(
                name,
                inside_chn,
            ),
            Term::Sup { fst, snd } => fst.channel_check(name, inside_chn) || snd.channel_check(
                name,
                inside_chn,
            ),
            Term::Let { nam, val, nxt } => val.channel_check(name, inside_chn) || (!same_name(
                nam,
                name,
            ) && nxt.channel_check(name, inside_chn)),
            Term::Dup { fst, snd, val, nxt } => {
                if val.occours_check(name) {
                    if let Some(f) = fst {
                        if nxt.channel_check(f.as_str(), inside_chn) {
                            return true;
                        }
                    }
                    if let Some(s) = snd {
                        if nxt.channel_check(s.as_str(), inside_chn) {
                            return true;
                        }
                    }
                }
                val.channel_check(name, inside_chn) || (!binds_name(fst, name) && !binds_name(
                    snd,
                    name,
                ) && nxt.channel_check(name, inside_chn))
            },
            Term::Lnk { .. } => false,
            Term::Ref { .. } => false,
            Term::Era => false,
        }
    }

    /// Whether the term is simple enough to stay a native abstraction.
    pub fn is_simple(&self) -> (r: bool)
        ensures
            r == simple(self@),
        decreases self,
    {
        match self {
            Term::Var { .. } => true,
            Term::Lam { nam: _, bod } => bod.is_simple(),
            Term::Chn { nam: _, bod } => bod.is_simple(),
            Term::Lnk { .. } => true,
            Term::Let { .. } => false,
            Term::Ref { .. } => true,
            Term::App { fun, arg } => fun.is_simple() && arg.is_simple(),
            Term::Dup { .. } => false,
            Term::Sup { .. } => false,
            Term::Era => true,
        }
    }

    /// Replaces each free variable `from` by the variable `to`.
    pub fn subst_var(self, from: &String, to: &String) -> (r: Term)
        ensures
            r@ == rename(self@, from@, to@),
        decreases self,
    {
        match self {
            Term::Var { nam } => {
                if nam == *from {
                    Term::Var { nam: to.clone() }
                } else {
                    Term::Var { nam }
                }
            },
            Term::Lam { nam, bod } => {
                if binds_name(&nam, from.as_str()) {
                    Term::Lam { nam, bod }
                } else {
                    Term::Lam { nam, bod: Box::new(bod.subst_var(from, to)) }
                }
            },
            Term::Chn { nam, bod } => Term::Chn { nam, bod: Box::new(bod.subst_var(from, to)) },
            Term::App { fun, arg } => Term::App {
                fun: Box::new(fun.subst_var(from, to)),
                arg: Box::new(arg.subst_var(from, to)),
            },
            Term::Sup { fst, snd } => Term::Sup {
                fst: Box::new(fst.subst_var(from, to)),
                snd: Box::new(snd.subst_var(from, to)),
            },
            Term::Let { nam, val, nxt } => {
                let val = Box::new(val.subst_var(from, to));
                if nam == *from {
                    Term::Let { nam, val, nxt }
                } else {
                    Term::Let { nam, val, nxt: Box::new(nxt.subst_var(from, to)) }
                }
            },
            Term::Dup { fst, snd, val, nxt } => {
                let val = Box::new(val.subst_var(from, to));
                if binds_name(&fst, from.as_str()) || binds_name(&snd, from.as_str()) {
                    Term::Dup { fst, snd, val, nxt }
                } else {
                    Term::Dup { fst, snd, val, nxt: Box::new(nxt.subst_var(from, to)) }
                }
            },
            other => other,
        }
    }

    /// A copy of this term, node by node.
    pub fn duplicate(&self) -> (r: Term)
        ensures
            r@ == self@,
        decreases self,
    {
        match self {
            Term::Var { nam } => Term::Var { nam: nam.clone() },
            Term::Lam { nam, bod } => Term::Lam { nam: copy_name(nam), bod: Box::new(bod.duplicate()) },
            Term::Chn { nam, bod } => Term::Chn { nam: nam.clone(), bod: Box::new(bod.duplicate()) },
            Term::Let { nam, val, nxt } => Term::Let {
                nam: nam.clone(),
                val: Box::new(val.duplicate()),
                nxt: Box::new(nxt.duplicate()),
            },
            Term::App { fun, arg } => Term::App {
                fun: Box::new(fun.duplicate()),
                arg: Box::new(arg.duplicate()),
            },
            Term::Dup { fst, snd, val, nxt } => Term::Dup {
                fst: copy_name(fst),
                snd: copy_name(snd),
                val: Box::new(val.duplicate()),
                nxt: Box::new(nxt.duplicate()),
            },
            Term::Sup { fst, snd } => Term::Sup {
                fst: Box::new(fst.duplicate()),
                snd: Box::new(snd.duplicate()),
            },
            Term::Ref { def_id } => Term::Ref { def_id: *def_id },
            Term::Lnk { nam } => Term::Lnk { nam: nam.clone() },
            Term::Era => Term::Era,
        }
    }

    /// Whether this term is exactly the variable `name`.
    pub fn is_var(&self, name: &str) -> (r: bool)
        ensures
            r == (self@ == SpecTerm::Var(name@)),
    {
        match self {
            Term::Var { nam } => same_name(nam, name),
            _ => false,
        }
    }

    /// A lambda with an optional binder.
    pub fn lam(name: Option<&str>, body: Term) -> (r: Term)
        ensures
            r@ == SpecTerm::Lam(
                match name {
                    Some(n) => Some(n@),
                    None => None,
                },
                Box::new(body@),
            ),
    {
        let nam = match name {
            Some(n) => Some(n.to_owned()),
            None => None,
        };
        Term::Lam { nam, bod: Box::new(body) }
    }

    /// An application.
    pub fn app(fun: Term, arg: Term) -> (r: Term)
        ensures
            r@ == SpecTerm::App(Box::new(fun@), Box::new(arg@)),
    {
        Term::App { fun: Box::new(fun), arg: Box::new(arg) }
    }

    /// A variable.
    pub fn var(name: &str) -> (r: Term)
        ensures
            r@ == SpecTerm::Var(name@),
    {
        Term::Var { nam: name.to_owned() }
    }
}

fn copy_name(o: &Option<String>) -> (r: Option<String>)
    ensures
        opt_view(r) == opt_view(*o),
{
    match o {
        Some(n) => Some(n.clone()),
        None => None,
    }
}

} // verus!
