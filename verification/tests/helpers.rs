use ceceio::{
    ensure_exact_arity, ensure_minimum_arity, parse_expression, resolve_argument, Application,
    Atom, Binding, BuiltIn, CheapClone, Env, Error, Evaluable, Expression, FnIdentifier, If,
    IfElse, Scope, SmallString, StringInterner, Typed,
};

fn number(x: f64) -> Expression {
    Expression::Atom(Atom::Number(x.to_bits()))
}

fn parsed(source: &str) -> Expression {
    parse_expression(source).unwrap().1
}

#[test]
fn arity_checks() {
    assert_eq!(ensure_exact_arity(2, 2), Ok(()));
    assert_eq!(
        ensure_exact_arity(2, 3),
        Err(Error::ExactArityMismatch {
            expected: 2,
            received: 3
        })
    );
    assert_eq!(ensure_minimum_arity(2, 2), Ok(()));
    assert_eq!(ensure_minimum_arity(2, 200), Ok(()));
    assert_eq!(
        ensure_minimum_arity(2, 1),
        Err(Error::MinimumArityMismatch {
            at_least: 2,
            received: 1
        })
    );
}

#[test]
fn rough_types() {
    assert_eq!(parsed("1").rough_type(), "number");
    assert_eq!(parsed("x").rough_type(), "identifier");
    assert_eq!(parsed(":x").rough_type(), "symbol");
    assert_eq!(parsed("\"x\"").rough_type(), "string");
    assert_eq!(parsed("true").rough_type(), "boolean");
    assert_eq!(parsed("false").rough_type(), "boolean");
    assert_eq!(parsed("nil").rough_type(), "nil");
    assert_eq!(parsed("%").rough_type(), "%");
    assert_eq!(parsed("[1]").rough_type(), "list");
    assert_eq!(parsed("(fn [] 1)").rough_type(), "lambda");
    assert_eq!(parsed("(def x 1)").rough_type(), "binding");
    assert_eq!(parsed("(f 1)").rough_type(), "application");
    assert_eq!(parsed("(if 1 2)").rough_type(), "if");
    assert_eq!(parsed("(if 1 2 3)").rough_type(), "if");
    assert_eq!(Expression::Cond(vec![]).rough_type(), "cond");
    assert_eq!(BuiltIn::Plus.rough_type(), "+");
    assert_eq!(BuiltIn::Minus.rough_type(), "-");
    assert_eq!(BuiltIn::Times.rough_type(), "*");
    assert_eq!(BuiltIn::Divide.rough_type(), "/");
    assert_eq!(BuiltIn::Equal.rough_type(), "=");
    assert_eq!(BuiltIn::Not.rough_type(), "not");
    assert_eq!(BuiltIn::And.rough_type(), "and");
    assert_eq!(BuiltIn::Or.rough_type(), "or");
    assert_eq!(BuiltIn::Cond.rough_type(), "cond");
    assert_eq!(BuiltIn::Count.rough_type(), "count");
    assert_eq!(Atom::Nil.rough_type(), "nil");
}

#[test]
fn down_casts() {
    assert_eq!(number(2.5).as_number(), Ok(2.5f64.to_bits()));
    assert_eq!(
        parsed("true").as_number(),
        Err(Error::TypeMismatch {
            expected: "number",
            received: "boolean"
        })
    );
    assert_eq!(parsed("true").as_bool(), Ok(true));
    assert_eq!(
        parsed(":s").as_bool(),
        Err(Error::TypeMismatch {
            expected: "boolean",
            received: "symbol"
        })
    );
    assert!(parsed("(fn [x] x)").as_lambda().is_ok());
    assert_eq!(
        parsed("[1]").as_lambda().unwrap_err(),
        Error::TypeMismatch {
            expected: "lambda",
            received: "list"
        }
    );
    assert_eq!(parsed("[1 2]").as_list().unwrap().len(), 2);
    assert_eq!(Expression::default(), parsed("nil"));
}

#[test]
fn environment_lookups() {
    let mut env = Env::default();
    assert_eq!(
        env.get(SmallString::new("x")),
        Err(Error::UnknownSymbol(SmallString::new("x")))
    );
    env.bind(SmallString::new("x"), number(1.0));
    env.bind(SmallString::new("a-name-longer-than-twenty-two-bytes"), number(2.0));
    assert_eq!(env.get(SmallString::new("x")), Ok(number(1.0)));
    assert_eq!(env.get_ref(SmallString::new("x")), Ok(&number(1.0)));
    assert_eq!(
        env.get(SmallString::new("a-name-longer-than-twenty-two-bytes")),
        Ok(number(2.0))
    );
    env.bind(SmallString::new("x"), number(3.0));
    assert_eq!(env.get(SmallString::new("x")), Ok(number(3.0)));
    assert_eq!(
        env.get(SmallString::new("y")),
        Err(Error::UnknownSymbol(SmallString::new("y")))
    );
}

#[test]
fn arguments_are_resolved_by_position() {
    let mut env = Env::default();
    let formals = vec![SmallString::new("a"), SmallString::new("b"), SmallString::new("a")];
    let received = vec![number(1.0), parsed("(+ 1 1)"), number(3.0)];
    assert_eq!(
        resolve_argument(&SmallString::new("a"), &formals, &received, &mut env),
        Ok(number(1.0))
    );
    assert_eq!(
        resolve_argument(&SmallString::new("b"), &formals, &received, &mut env),
        Ok(number(2.0))
    );
    assert_eq!(
        resolve_argument(&SmallString::new("c"), &formals, &received, &mut env),
        Err(Error::UnknownSymbol(SmallString::new("c")))
    );
}

#[test]
fn substitution_in_place() {
    let mut env = Env::default();
    env.bind(SmallString::new("free"), number(10.0));
    let formals = vec![SmallString::new("x")];
    let received = vec![parsed("(+ 1 1)")];

    let mut body = parsed("(if (= x 2) [x] (+ x free (f x)))");
    assert_eq!(body.resolve_all(&formals, &received, &mut env), Ok(()));
    assert_eq!(body, parsed("(if (= 2 2) [x] (+ 2 10 (f 2)))"));

    let mut failing = parsed("(+ x unbound)");
    assert_eq!(
        failing.resolve_all(&formals, &received, &mut env),
        Err(Error::UnknownSymbol(SmallString::new("unbound")))
    );
    assert_eq!(failing, parsed("(+ x unbound)"));

    let (_, mut application) = ceceio::parser::parse_application("(+ x (g x) (if x 1))").unwrap();
    assert_eq!(application.resolve_all(&formals, &received, &mut env), Ok(()));
    assert_eq!(
        Expression::Application(application),
        parsed("(+ 2 (g 2) (if x 1))")
    );
}

#[test]
fn ifs_are_resolved_then_evaluated() {
    let mut env = Env::default();
    let formals = vec![SmallString::new("x")];
    let received = vec![number(4.0)];
    let (_, form) = ceceio::parser::parse_if("(if (= x 4) (* x 2))").unwrap();
    match form {
        Expression::If(inner) => assert_eq!(
            inner.resolve_identifiers_and_eval(&formals, &received, &mut env),
            Ok(number(8.0))
        ),
        other => panic!("{:?}", other),
    }
    let (_, form) = ceceio::parser::parse_if("(if (= x 5) 1 x)").unwrap();
    match form {
        Expression::IfElse(inner) => assert_eq!(
            inner.resolve_identifiers_and_eval(&formals, &received, &mut env),
            Ok(number(4.0))
        ),
        other => panic!("{:?}", other),
    }
}

#[test]
fn scopes_resolve_symbols() {
    let identifiers = vec![SmallString::new("a"), SmallString::new("b")];
    let expressions = vec![number(1.0), number(2.0)];
    let scope = Scope::new(&identifiers, &expressions);
    assert_eq!(scope.resolve_symbol(&SmallString::new("b")), Ok(&number(2.0)));
    assert_eq!(
        scope.resolve_symbol(&SmallString::new("c")),
        Err(Error::UnknownSymbol(SmallString::new("c")))
    );
    let mut exprs = vec![parsed("a"), parsed("c"), parsed("(+ a b)"), parsed("b")];
    scope.resolve_all_in_place(&mut exprs);
    assert_eq!(
        exprs,
        vec![number(1.0), parsed("c"), parsed("(+ a b)"), number(2.0)]
    );
}

#[test]
fn the_interner_stores_each_text_once() {
    let mut interner = StringInterner::with_capacity(4);
    assert!(interner.insert("one"));
    assert!(!interner.insert("one"));
    assert!(interner.insert("two"));
    assert_eq!(interner.get_or_insert("one").as_str(), "one");
    assert_eq!(interner.get_or_insert("three").as_str(), "three");
    assert!(!interner.insert("three"));
    assert!(interner.insert("a text of more than twenty-two bytes"));
    assert!(!interner.insert("a text of more than twenty-two bytes"));
}

#[test]
fn cheap_clones_are_equal() {
    let short = SmallString::new("short");
    assert_eq!(short.cheap_clone(), short);
    let long = SmallString::new("long enough to live in the heap");
    assert_eq!(long.cheap_clone(), long);
    assert!(long.cheap_clone().is_in_heap());
    let name = FnIdentifier::Other(SmallString::new("f"));
    assert_eq!(name.cheap_clone(), name);
    let atom = Atom::Symbol(SmallString::new("s"));
    assert_eq!(atom.cheap_clone(), atom);
    assert_eq!(short.clone(), short);
    assert!(short.has_text("short"));
    assert!(!short.has_text("shorter"));
    assert!(SmallString::new("h\u{e9}llo w\u{f6}rld, 22 bytes").is_in_heap());
}

#[test]
fn every_form_evaluates_like_its_expression() {
    let mut env = Env::default();
    assert_eq!(env.max_depth(), 1000);
    assert_eq!(Atom::Number(1.5f64.to_bits()).evaluate(&mut env), Ok(number(1.5)));
    assert_eq!(
        Atom::Identifier(SmallString::new("x")).evaluate(&mut env),
        Err(Error::UnknownSymbol(SmallString::new("x")))
    );
    let binding = Binding {
        identifier: SmallString::new("x"),
        expression: parsed("(+ 1 2)"),
    };
    assert_eq!(binding.evaluate(&mut env), Ok(number(3.0)));
    assert_eq!(Atom::Identifier(SmallString::new("x")).evaluate(&mut env), Ok(number(3.0)));
    let test = If {
        condition: parsed("(= x 3)"),
        do_this: parsed(":three"),
    };
    assert_eq!(test.evaluate(&mut env), Ok(parsed(":three")));
    let choice = IfElse {
        condition: parsed("(= x 4)"),
        if_true: parsed(":four"),
        if_false: parsed(":other"),
    };
    assert_eq!(choice.evaluate(&mut env), Ok(parsed(":other")));
    let call = Application {
        name: FnIdentifier::BuiltIn(BuiltIn::Times),
        arguments: vec![parsed("x"), parsed("x")],
    };
    assert_eq!(call.evaluate(&mut env), Ok(number(9.0)));
}

#[test]
fn texts_of_parts() {
    let call = Application {
        name: FnIdentifier::Other(SmallString::new("f")),
        arguments: vec![],
    };
    assert_eq!(call.to_text(), "<function f> ");
    assert_eq!(FnIdentifier::BuiltIn(BuiltIn::Remainder).to_text(), "%");
    assert_eq!(FnIdentifier::Other(SmallString::new("g")).to_text(), "g");
    let choice = IfElse {
        condition: parsed("true"),
        if_true: parsed("1"),
        if_false: parsed("[2]"),
    };
    assert_eq!(choice.to_text(), "(if true 1 [2])");
    assert_eq!(SmallString::new("text").to_text(), "text");
    assert_eq!(Atom::Boolean(false).to_text(), "false");
}
