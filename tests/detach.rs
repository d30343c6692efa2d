use combinators::abstraction::{AbsError, AbsTerm, Combinator};
use combinators::book::{DefNames, DefinitionBook};
use combinators::term::Term;

fn registered_book() -> DefinitionBook {
    let mut book = DefinitionBook::new();
    let _ = book.register_combinators();
    book
}

fn comb_id(names: &DefNames, name: &str) -> usize {
    names.def_id(name).unwrap()
}

fn arity_of(name: &str) -> usize {
    match name {
        "_K" => 2,
        "_I" => 1,
        "_B" | "_C" | "_S" => 3,
        _ => 4,
    }
}

/// Applies the combinator rules at the head of the term until none applies,
/// then normalises the arguments.
fn normalize(t: Term, names: &DefNames) -> Term {
    let mut args: Vec<Term> = Vec::new();
    let mut head = t;
    loop {
        match head {
            Term::App { fun, arg } => {
                args.push(*arg);
                head = *fun;
            }
            other => {
                head = other;
                break;
            }
        }
    }
    args.reverse();
    if let Term::Ref { def_id } = head {
        let name = names.name(def_id).unwrap().clone();
        let k = arity_of(&name);
        if args.len() >= k {
            let rest: Vec<Term> = args.split_off(k);
            let mut a = args.into_iter();
            let mut next = || a.next().unwrap();
            let reduct = match name.as_str() {
                "_K" => {
                    let x = next();
                    let _ = next();
                    x
                }
                "_I" => next(),
                "_B" => {
                    let (x, y, z) = (next(), next(), next());
                    Term::app(x, Term::app(y, z))
                }
                "_C" => {
                    let (x, y, z) = (next(), next(), next());
                    Term::app(Term::app(x, z), y)
                }
                "_S" => {
                    let (x, y, z) = (next(), next(), next());
                    let z2 = z.duplicate();
                    Term::app(Term::app(x, z), Term::app(y, z2))
                }
                "_B_" => {
                    let (d, x, y, z) = (next(), next(), next(), next());
                    Term::app(Term::app(d, x), Term::app(y, z))
                }
                "_C_" => {
                    let (d, x, y, z) = (next(), next(), next(), next());
                    Term::app(Term::app(d, Term::app(x, z)), y)
                }
                _ => {
                    let (d, x, y, z) = (next(), next(), next(), next());
                    let z2 = z.duplicate();
                    Term::app(Term::app(d, Term::app(x, z)), Term::app(y, z2))
                }
            };
            let mut t = reduct;
            for r in rest {
                t = Term::app(t, r);
            }
            return normalize(t, names);
        }
        let mut t = Term::Ref { def_id };
        for a in args {
            t = Term::app(t, normalize(a, names));
        }
        return t;
    }
    let mut t = head;
    for a in args {
        t = Term::app(t, normalize(a, names));
    }
    t
}

fn has_lambda(t: &Term) -> bool {
    match t {
        Term::Lam { .. } => true,
        Term::Chn { bod, .. } => has_lambda(bod),
        Term::App { fun, arg } => has_lambda(fun) || has_lambda(arg),
        Term::Let { val, nxt, .. } | Term::Dup { val, nxt, .. } => has_lambda(val) || has_lambda(nxt),
        Term::Sup { fst, snd } => has_lambda(fst) || has_lambda(snd),
        _ => false,
    }
}

fn to_term_of(a: AbsTerm, names: &DefNames) -> Term {
    a.to_term(names)
}

fn scenario_term() -> Term {
    Term::lam(
        Some("f"),
        Term::lam(
            Some("g"),
            Term::lam(
                Some("x"),
                Term::app(
                    Term::app(Term::var("some_var"), Term::app(Term::var("f"), Term::var("x"))),
                    Term::app(Term::var("g"), Term::var("x")),
                ),
            ),
        ),
    )
}

#[test]
fn test() {
    let book = registered_book();
    let mut test_case = scenario_term();
    println!("Term:\n{}\n", test_case.to_string(&book.def_names));
    assert_eq!(test_case.abstract_lambdas(&book.def_names), Ok(()));
    println!("Result:\n{}\n", test_case.to_string(&book.def_names));
    // The body is simple and the lambda stands at the root: it is kept.
    assert_eq!(test_case, scenario_term());
}

#[test]
fn extracted_scenario_is_extensionally_equal() {
    let book = registered_book();
    let mut t = scenario_term();
    assert_eq!(t.abstract_lambda(&book.def_names), Ok(()));
    assert!(!has_lambda(&t));
    let applied = Term::app(Term::app(Term::app(t, Term::var("a")), Term::var("b")), Term::var("c"));
    let expected = Term::app(
        Term::app(Term::var("some_var"), Term::app(Term::var("a"), Term::var("c"))),
        Term::app(Term::var("b"), Term::var("c")),
    );
    assert_eq!(normalize(applied, &book.def_names), expected);
}

#[test]
fn identity_abstracts_to_i() {
    let book = registered_book();
    assert_eq!(Term::var("x").abstract_by("x"), Ok(AbsTerm::Comb(Combinator::I)));
    let mut t = Term::lam(Some("x"), Term::var("x"));
    assert_eq!(t.abstract_lambda(&book.def_names), Ok(()));
    assert_eq!(t, Term::Ref { def_id: comb_id(&book.def_names, "_I") });
}

#[test]
fn constant_abstracts_to_k() {
    let body = Term::lam(Some("y"), Term::var("x"));
    assert_eq!(body.abstract_by("x"), Ok(AbsTerm::Comb(Combinator::K)));
}

#[test]
fn closed_term_gets_k() {
    let r = Term::var("y").abstract_by("x");
    assert_eq!(
        r,
        Ok(AbsTerm::App(
            Box::new(AbsTerm::Comb(Combinator::K)),
            Box::new(AbsTerm::Term(Term::var("y")))
        ))
    );
}

#[test]
fn eta_shortcut_returns_function() {
    let t = Term::app(Term::var("f"), Term::var("x"));
    assert_eq!(t.abstract_by("x"), Ok(AbsTerm::Term(Term::var("f"))));
}

#[test]
fn plain_application_rules() {
    // x y by x: C I y
    let c = Term::app(Term::var("x"), Term::var("y")).abstract_by("x").unwrap();
    let expected_c = AbsTerm::call(
        Combinator::C,
        vec![AbsTerm::Comb(Combinator::I), AbsTerm::Term(Term::var("y"))],
    );
    assert_eq!(c, expected_c);
    // f (g x) by x: B f g
    let b = Term::app(Term::var("f"), Term::app(Term::var("g"), Term::var("x"))).abstract_by("x").unwrap();
    let expected_b = AbsTerm::call(
        Combinator::B,
        vec![AbsTerm::Term(Term::var("f")), AbsTerm::Term(Term::var("g"))],
    );
    assert_eq!(b, expected_b);
    // x x by x: S I I
    let s = Term::app(Term::var("x"), Term::var("x")).abstract_by("x").unwrap();
    let expected_s = AbsTerm::call(
        Combinator::S,
        vec![AbsTerm::Comb(Combinator::I), AbsTerm::Comb(Combinator::I)],
    );
    assert_eq!(s, expected_s);
}

#[test]
fn triple_application_uses_primes() {
    // f a (g x) by x: B_ f a g
    let t = Term::app(Term::app(Term::var("f"), Term::var("a")), Term::app(Term::var("g"), Term::var("x")));
    assert_eq!(
        t.abstract_by("x").unwrap(),
        AbsTerm::call(
            Combinator::B_,
            vec![
                AbsTerm::Term(Term::var("f")),
                AbsTerm::Term(Term::var("a")),
                AbsTerm::Term(Term::var("g"))
            ]
        )
    );
    // f x a by x: C_ f I a
    let t = Term::app(Term::app(Term::var("f"), Term::var("x")), Term::var("a"));
    assert_eq!(
        t.abstract_by("x").unwrap(),
        AbsTerm::call(
            Combinator::C_,
            vec![
                AbsTerm::Term(Term::var("f")),
                AbsTerm::Comb(Combinator::I),
                AbsTerm::Term(Term::var("a"))
            ]
        )
    );
}

#[test]
fn channel_guarded_lambda_is_kept() {
    let book = registered_book();
    let make = || Term::lam(Some("x"), Term::Chn { nam: "c".to_string(), bod: Box::new(Term::var("x")) });
    let mut t = Term::app(Term::var("h"), make());
    assert_eq!(t.abstract_lambdas(&book.def_names), Ok(()));
    assert_eq!(t, Term::app(Term::var("h"), make()));
}

#[test]
fn simple_root_lambda_is_kept() {
    let book = registered_book();
    let make = || Term::lam(Some("x"), Term::lam(Some("y"), Term::var("x")));
    let mut t = make();
    assert_eq!(t.abstract_lambdas(&book.def_names), Ok(()));
    assert_eq!(t, make());
}

#[test]
fn nested_lambda_is_extracted() {
    let book = registered_book();
    let mut t = Term::app(Term::var("h"), Term::lam(Some("x"), Term::var("x")));
    assert_eq!(t.abstract_lambdas(&book.def_names), Ok(()));
    assert_eq!(t, Term::app(Term::var("h"), Term::Ref { def_id: comb_id(&book.def_names, "_I") }));
}

#[test]
fn superposition_is_unsupported() {
    let book = registered_book();
    let make = || Term::app(Term::var("h"), Term::Sup { fst: Box::new(Term::Era), snd: Box::new(Term::Era) });
    let mut t = make();
    assert_eq!(t.abstract_lambdas(&book.def_names), Err(AbsError::Superposition));
    assert_eq!(t, make());
    let s = Term::Sup { fst: Box::new(Term::var("x")), snd: Box::new(Term::Era) };
    assert_eq!(s.abstract_by("x"), Err(AbsError::Superposition));
}

#[test]
fn channel_reached_directly_is_unsupported() {
    let t = Term::Chn { nam: "c".to_string(), bod: Box::new(Term::var("x")) };
    assert_eq!(t.abstract_by("x"), Err(AbsError::Channel));
}

#[test]
fn let_is_read_as_application() {
    // let n = v; n   by x (x absent): K (I v) is not built; the let gives K applied to the whole
    let t = Term::Let {
        nam: "n".to_string(),
        val: Box::new(Term::var("x")),
        nxt: Box::new(Term::var("n")),
    };
    // (I x) by x: eta gives I
    assert_eq!(t.abstract_by("x"), Ok(AbsTerm::Comb(Combinator::I)));
}

#[test]
fn dup_renames_second_alias() {
    // dup a b = x; (a b)  by x: ((S I I) x) by x = S I I
    let t = Term::Dup {
        fst: Some("a".to_string()),
        snd: Some("b".to_string()),
        val: Box::new(Term::var("x")),
        nxt: Box::new(Term::app(Term::var("a"), Term::var("b"))),
    };
    let expected = AbsTerm::call(
        Combinator::S,
        vec![AbsTerm::Comb(Combinator::I), AbsTerm::Comb(Combinator::I)],
    );
    assert_eq!(t.abstract_by("x"), Ok(expected));
}

#[test]
fn peephole_rules() {
    let mut a = AbsTerm::call(
        Combinator::C_,
        vec![AbsTerm::Comb(Combinator::C_), AbsTerm::Comb(Combinator::I), AbsTerm::Comb(Combinator::I)],
    );
    a.reduce();
    assert_eq!(a, AbsTerm::Comb(Combinator::C));
    let mut a = AbsTerm::call(
        Combinator::C_,
        vec![AbsTerm::Comb(Combinator::S_), AbsTerm::Comb(Combinator::I), AbsTerm::Comb(Combinator::I)],
    );
    a.reduce();
    assert_eq!(a, AbsTerm::Comb(Combinator::S));
    let ci = AbsTerm::call(Combinator::C, vec![AbsTerm::Comb(Combinator::I)]);
    let mut a = AbsTerm::call(Combinator::C_, vec![ci, AbsTerm::Comb(Combinator::I)]);
    a.reduce();
    assert_eq!(a, AbsTerm::Comb(Combinator::I));
    let make = || {
        AbsTerm::call(
            Combinator::C_,
            vec![AbsTerm::Comb(Combinator::K), AbsTerm::Comb(Combinator::I), AbsTerm::Comb(Combinator::I)],
        )
    };
    let mut a = make();
    a.reduce();
    assert_eq!(a, make());
}

#[test]
fn peephole_rewrites_are_extensional() {
    let book = registered_book();
    let names = &book.def_names;
    let args = |t: Term, n: usize| {
        let mut t = t;
        for v in ["p", "q", "r", "s"].iter().take(n) {
            t = Term::app(t, Term::var(v));
        }
        t
    };
    let lhs = AbsTerm::call(
        Combinator::C_,
        vec![AbsTerm::Comb(Combinator::C_), AbsTerm::Comb(Combinator::I), AbsTerm::Comb(Combinator::I)],
    );
    let l = normalize(args(to_term_of(lhs, names), 3), names);
    let r = normalize(args(to_term_of(AbsTerm::Comb(Combinator::C), names), 3), names);
    assert_eq!(l, r);
    let lhs = AbsTerm::call(
        Combinator::C_,
        vec![AbsTerm::Comb(Combinator::S_), AbsTerm::Comb(Combinator::I), AbsTerm::Comb(Combinator::I)],
    );
    let l = normalize(args(to_term_of(lhs, names), 3), names);
    let r = normalize(args(to_term_of(AbsTerm::Comb(Combinator::S), names), 3), names);
    assert_eq!(l, r);
    let ci = AbsTerm::call(Combinator::C, vec![AbsTerm::Comb(Combinator::I)]);
    let lhs = AbsTerm::call(Combinator::C_, vec![ci, AbsTerm::Comb(Combinator::I)]);
    let l = normalize(args(to_term_of(lhs, names), 2), names);
    let r = normalize(args(to_term_of(AbsTerm::Comb(Combinator::I), names), 2), names);
    assert_eq!(l, r);
    assert_eq!(r, Term::app(Term::var("p"), Term::var("q")));
}

#[test]
fn call_folds_left() {
    let a = AbsTerm::call(
        Combinator::C,
        vec![AbsTerm::Comb(Combinator::K), AbsTerm::Comb(Combinator::I), AbsTerm::Comb(Combinator::S)],
    );
    let k = Box::new(AbsTerm::Comb(Combinator::K));
    let expected = AbsTerm::App(
        Box::new(AbsTerm::App(Box::new(AbsTerm::App(Box::new(AbsTerm::Comb(Combinator::C)), k)), Box::new(AbsTerm::Comb(Combinator::I)))),
        Box::new(AbsTerm::Comb(Combinator::S)),
    );
    assert_eq!(a, expected);
    assert_eq!(AbsTerm::call(Combinator::B, vec![]), AbsTerm::Comb(Combinator::B));
}

#[test]
fn register_twice_gives_fresh_ids() {
    let mut book = DefinitionBook::new();
    let first = book.register_combinators();
    let second = book.register_combinators();
    assert_eq!(first.len(), 8);
    assert_eq!(second.len(), 8);
    for i in 0..8 {
        assert_eq!(first[i].def_id, i);
        assert_eq!(second[i].def_id, 8 + i);
        assert_eq!(first[i].rules[0].body, second[i].rules[0].body);
    }
    assert_eq!(book.def_names.def_id("_K"), Some(8));
    assert_eq!(book.defs.len(), 0);
}

#[test]
fn registered_bodies() {
    let mut book = DefinitionBook::new();
    let defs = book.register_combinators();
    assert_eq!(defs[0].rules[0].body, Term::lam(Some("x"), Term::lam(Some("y"), Term::var("x"))));
    assert_eq!(defs[1].rules[0].body, Term::lam(Some("x"), Term::var("x")));
    let xyz = |b: Term| Term::lam(Some("x"), Term::lam(Some("y"), Term::lam(Some("z"), b)));
    assert_eq!(defs[2].rules[0].body, xyz(Term::app(Term::var("x"), Term::app(Term::var("y"), Term::var("z")))));
    let c_prime = Term::lam(
        Some("d"),
        xyz(Term::app(Term::app(Term::var("d"), Term::app(Term::var("x"), Term::var("z"))), Term::var("y"))),
    );
    assert_eq!(defs[5].rules[0].body, c_prime);
    assert_eq!(book.def_names.name(5).unwrap().as_str(), "_C_");
}

#[test]
fn detach_transforms_rules_and_appends() {
    let mut book = DefinitionBook::new();
    let id = book.def_names.insert("main".to_string());
    let mut rules = Vec::new();
    rules.push(combinators::book::Rule { def_id: id, body: Term::app(Term::var("h"), Term::lam(Some("x"), Term::var("x"))) });
    book.defs.push(combinators::book::Definition { def_id: id, rules });
    assert_eq!(book.detach_combinators(), Ok(()));
    assert_eq!(book.defs.len(), 9);
    assert_eq!(book.defs[0].rules[0].body, Term::app(Term::var("h"), Term::Ref { def_id: 2 }));
    assert_eq!(book.defs[2].def_id, 2);
}

#[test]
fn detach_reports_superposition() {
    let mut book = DefinitionBook::new();
    let id = book.def_names.insert("main".to_string());
    let mut rules = Vec::new();
    rules.push(combinators::book::Rule { def_id: id, body: Term::Sup { fst: Box::new(Term::Era), snd: Box::new(Term::Era) } });
    book.defs.push(combinators::book::Definition { def_id: id, rules });
    assert_eq!(book.detach_combinators(), Err(AbsError::Superposition));
}

#[test]
fn occurs_respects_binders() {
    let t = Term::lam(Some("x"), Term::var("x"));
    assert!(!t.occours_check("x"));
    let t = Term::lam(Some("y"), Term::var("x"));
    assert!(t.occours_check("x"));
    let t = Term::Let { nam: "x".to_string(), val: Box::new(Term::Era), nxt: Box::new(Term::var("x")) };
    assert!(!t.occours_check("x"));
    let t = Term::Dup { fst: None, snd: Some("x".to_string()), val: Box::new(Term::var("x")), nxt: Box::new(Term::Era) };
    assert!(t.occours_check("x"));
    assert!(AbsTerm::Term(Term::var("x")).occours_check("x"));
    assert!(!AbsTerm::Comb(Combinator::K).occours_check("x"));
}

#[test]
fn channel_check_follows_dup_aliases() {
    let t = Term::Dup {
        fst: Some("a".to_string()),
        snd: None,
        val: Box::new(Term::var("x")),
        nxt: Box::new(Term::Chn { nam: "c".to_string(), bod: Box::new(Term::var("a")) }),
    };
    assert!(t.channel_check("x", false));
    assert!(!Term::var("x").channel_check("x", false));
    assert!(Term::var("x").channel_check("x", true));
}

#[test]
fn simple_shapes() {
    assert!(Term::app(Term::var("a"), Term::lam(None, Term::Era)).is_simple());
    assert!(!Term::Let { nam: "n".to_string(), val: Box::new(Term::Era), nxt: Box::new(Term::Era) }.is_simple());
    assert!(!Term::Sup { fst: Box::new(Term::Era), snd: Box::new(Term::Era) }.is_simple());
}

#[test]
fn subst_var_stops_at_binders() {
    let t = Term::app(Term::var("b"), Term::lam(Some("b"), Term::var("b")));
    let r = t.subst_var(&"b".to_string(), &"a".to_string());
    assert_eq!(r, Term::app(Term::var("a"), Term::lam(Some("b"), Term::var("b"))));
}

#[test]
fn to_term_lowers_combinators() {
    let book = registered_book();
    let a = AbsTerm::call(Combinator::S_, vec![AbsTerm::Term(Term::var("v"))]);
    let t = a.to_term(&book.def_names);
    assert_eq!(t, Term::app(Term::Ref { def_id: 7 }, Term::var("v")));
}

#[test]
fn abs_term_is_reabstracted() {
    let a = AbsTerm::Comb(Combinator::B);
    assert_eq!(a.abstract_by("x"), Ok(AbsTerm::call(Combinator::K, vec![AbsTerm::Comb(Combinator::B)])));
    let a = AbsTerm::App(Box::new(AbsTerm::Term(Term::var("f"))), Box::new(AbsTerm::Term(Term::var("x"))));
    assert_eq!(a.abstract_by("x"), Ok(AbsTerm::Term(Term::var("f"))));
}

#[test]
fn printing() {
    let book = registered_book();
    let t = Term::lam(Some("x"), Term::app(Term::var("x"), Term::Ref { def_id: 0 }));
    assert_eq!(t.to_string(&book.def_names), "λx (x _K)");
    let a = AbsTerm::call(Combinator::S_, vec![AbsTerm::Term(Term::var("v")), AbsTerm::Comb(Combinator::I)]);
    assert_eq!(a.to_string(&book.def_names), "((S_ v) I)");
}

#[test]
fn eta_shortcut_before_lambda_cases() {
    let chn_lam = || Term::lam(Some("y"), Term::Chn { nam: "c".to_string(), bod: Box::new(Term::var("y")) });
    let t = Term::app(chn_lam(), Term::var("x"));
    assert_eq!(t.abstract_by("x"), Ok(AbsTerm::Term(chn_lam())));
    let id = || Term::lam(Some("y"), Term::var("y"));
    let t = Term::app(id(), Term::var("x"));
    assert_eq!(t.abstract_by("x"), Ok(AbsTerm::Term(id())));
}

#[test]
fn detach_stops_at_first_failing_rule() {
    let mut book = DefinitionBook::new();
    let a = book.def_names.insert("a".to_string());
    let b = book.def_names.insert("b".to_string());
    let mut rules_a = Vec::new();
    rules_a.push(combinators::book::Rule { def_id: a, body: Term::app(Term::var("h"), Term::lam(Some("x"), Term::var("x"))) });
    let mut rules_b = Vec::new();
    let sup = || Term::app(Term::var("h"), Term::Sup { fst: Box::new(Term::Era), snd: Box::new(Term::Era) });
    rules_b.push(combinators::book::Rule { def_id: b, body: sup() });
    book.defs.push(combinators::book::Definition { def_id: a, rules: rules_a });
    book.defs.push(combinators::book::Definition { def_id: b, rules: rules_b });
    assert_eq!(book.detach_combinators(), Err(AbsError::Superposition));
    assert_eq!(book.defs.len(), 2);
    // "_I" is the second registered combinator: ids 2 ("_K") and 3 ("_I").
    assert_eq!(book.defs[0].rules[0].body, Term::app(Term::var("h"), Term::Ref { def_id: 3 }));
    assert_eq!(book.defs[1].rules[0].body, sup());
    assert_eq!(book.def_names.len(), 10);
}
