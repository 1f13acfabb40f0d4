use lambda_lifter::{
    abstract_module, do_lambda_lift, function_type_, lift_lambdas, Alt, Binding, Constraint, Expr,
    Id, Literal, LiteralData, Module, Name, NameSupply, Pattern, Type, SUPERCOMBINATOR_SYMBOL,
};
use std::collections::HashSet;

const ADD: u64 = 1;
const X: u64 = 2;
const Y: u64 = 3;
const TEST: u64 = 4;
const TEST2: u64 = 5;
const F: u64 = 6;
const G: u64 = 7;
const MAIN: u64 = 8;
const Z: u64 = 9;
const H: u64 = 10;
const W: u64 = 11;
const PLUS: u64 = 12;
const LOOP: u64 = 13;
const N: u64 = 14;
const GO: u64 = 15;
const K: u64 = 16;
const EQ: u64 = 17;
const MINUS: u64 = 18;
const TRUE: u64 = 19;
const FALSE: u64 = 20;
const LAMBDA_SC: u64 = 21;

const INT: u64 = 1;
const DOUBLE: u64 = 2;
const BOOL: u64 = 3;

fn int_t() -> Type {
    Type::Constructor(INT)
}

fn fun(a: Type, r: Type) -> Type {
    function_type_(a, r)
}

fn int2() -> Type {
    fun(int_t(), int_t())
}

fn int3() -> Type {
    fun(int_t(), fun(int_t(), int_t()))
}

fn id(symbol: u64, uid: u64, typ: Type) -> Id {
    Id::new(Name { name: symbol, uid }, typ, vec![])
}

fn var(symbol: u64, uid: u64, typ: Type) -> Expr<Id> {
    Expr::Identifier(id(symbol, uid, typ))
}

fn app(f: Expr<Id>, a: Expr<Id>) -> Expr<Id> {
    Expr::Apply(Box::new(f), Box::new(a))
}

fn lam(v: Id, body: Expr<Id>) -> Expr<Id> {
    Expr::Lambda(v, Box::new(body))
}

fn let_(binds: Vec<Binding<Id>>, body: Expr<Id>) -> Expr<Id> {
    Expr::Let(binds, Box::new(body))
}

fn bind(name: Id, expression: Expr<Id>) -> Binding<Id> {
    Binding { name, expression }
}

fn int_lit(n: i64) -> Expr<Id> {
    Expr::Literal(LiteralData { typ: int_t(), value: Literal::Integral(n) })
}

// add x y = 2
// test = 3.14
// test2 x =
//     let
//         test = 2
//         f x =
//             let g y = add x (f y)
//             in add x test
//     in f x
fn sample_module() -> Module<Id> {
    let add = bind(id(ADD, 1, int3()), lam(id(X, 2, int_t()), lam(id(Y, 3, int_t()), int_lit(2))));
    let test = bind(
        id(TEST, 4, Type::Constructor(DOUBLE)),
        Expr::Literal(LiteralData {
            typ: Type::Constructor(DOUBLE),
            value: Literal::Fractional(3.14f64.to_bits()),
        }),
    );
    let g_body = app(
        app(var(ADD, 1, int3()), var(X, 7, int_t())),
        app(var(F, 6, int2()), var(Y, 9, int_t())),
    );
    let g = bind(id(G, 8, int2()), lam(id(Y, 9, int_t()), g_body));
    let f_body = let_(
        vec![g],
        app(app(var(ADD, 1, int3()), var(X, 7, int_t())), var(TEST, 10, int_t())),
    );
    let f = bind(id(F, 6, int2()), lam(id(X, 7, int_t()), f_body));
    let local_test = bind(id(TEST, 10, int_t()), int_lit(2));
    let test2_body = let_(vec![local_test, f], app(var(F, 6, int2()), var(X, 5, int_t())));
    let test2 = bind(id(TEST2, 11, int2()), lam(id(X, 5, int_t()), test2_body));
    Module { bindings: vec![add, test, test2] }
}

fn check_uniques_expr(found: &mut HashSet<Name>, expr: &Expr<Id>) {
    match expr {
        Expr::Lambda(i, body) => {
            assert!(found.insert(i.name));
            check_uniques_expr(found, body);
        }
        Expr::Apply(f, a) => {
            check_uniques_expr(found, f);
            check_uniques_expr(found, a);
        }
        Expr::Let(binds, body) => {
            for b in binds.iter() {
                check_uniques_binding(found, b);
            }
            check_uniques_expr(found, body);
        }
        Expr::Case(s, alts) => {
            check_uniques_expr(found, s);
            for alt in alts.iter() {
                check_uniques_expr(found, &alt.expression);
            }
        }
        _ => (),
    }
}

fn check_uniques_binding(found: &mut HashSet<Name>, bind: &Binding<Id>) {
    assert!(found.insert(bind.name.name));
    check_uniques_expr(found, &bind.expression);
}

#[test]
fn all_uniques() {
    let module = sample_module();
    let mut found = HashSet::new();
    for b in module.bindings.iter() {
        check_uniques_binding(&mut found, b);
    }
}

fn check_args(expr: &Expr<Id>, args: &[u64]) -> bool {
    match expr {
        Expr::Lambda(arg, body) => {
            !args.is_empty() && arg.name.name == args[0] && check_args(body, &args[1..])
        }
        _ => args.is_empty(),
    }
}

// The head of an application chain, with its arguments in the order in
// which they are applied.
fn get_let<'a>(expr: &'a Expr<Id>, args: &mut Vec<u64>) -> &'a Expr<Id> {
    match expr {
        Expr::Apply(f, arg) => {
            let head = get_let(f, args);
            match &**arg {
                Expr::Identifier(i) => args.push(i.name.name),
                _ => panic!("Expected identifier as argument"),
            }
            head
        }
        _ => expr,
    }
}

fn check_abstract_binding(count: &mut i32, bind: &Binding<Id>) {
    if bind.name.name.name == F || bind.name.name.name == G {
        let own_arg = if bind.name.name.name == F { X } else { Y };
        let mut args = vec![];
        match get_let(&bind.expression, &mut args) {
            Expr::Let(binds, body) => {
                args.push(own_arg);
                assert!(check_args(&binds[0].expression, args.as_ref()));
                assert_eq!(Expr::Identifier(binds[0].name.copy()), **body);
            }
            _ => panic!("Expected Let, found {:?}", bind.expression),
        }
        *count += 1;
    }
    check_abstract_expr(count, &bind.expression);
}

fn check_abstract_expr(count: &mut i32, expr: &Expr<Id>) {
    match expr {
        Expr::Lambda(_, body) => check_abstract_expr(count, body),
        Expr::Apply(f, a) => {
            check_abstract_expr(count, f);
            check_abstract_expr(count, a);
        }
        Expr::Let(binds, body) => {
            for b in binds.iter() {
                check_abstract_binding(count, b);
            }
            check_abstract_expr(count, body);
        }
        Expr::Case(s, alts) => {
            check_abstract_expr(count, s);
            for alt in alts.iter() {
                check_abstract_expr(count, &alt.expression);
            }
        }
        _ => (),
    }
}

#[test]
fn all_free_vars() {
    let module = abstract_module(sample_module());
    let mut count = 0;
    for b in module.bindings.iter() {
        check_abstract_binding(&mut count, b);
    }
    assert_eq!(count, 2);
}

fn assert_no_lambdas(expr: &Expr<Id>) {
    match expr {
        Expr::Lambda(..) => assert!(false, "Found lambda in expression"),
        Expr::Apply(f, a) => {
            assert_no_lambdas(f);
            assert_no_lambdas(a);
        }
        Expr::Let(binds, body) => {
            for b in binds.iter() {
                assert_no_lambdas(&b.expression);
            }
            assert_no_lambdas(body);
        }
        Expr::Case(s, alts) => {
            assert_no_lambdas(s);
            for alt in alts.iter() {
                assert_no_lambdas(&alt.expression);
            }
        }
        _ => (),
    }
}

fn skip_lambdas(expr: &Expr<Id>) -> &Expr<Id> {
    match expr {
        Expr::Lambda(_, body) => skip_lambdas(body),
        _ => expr,
    }
}

#[test]
fn no_local_lambdas() {
    let module = lift_lambdas(sample_module());
    for bind in module.bindings.iter() {
        assert_no_lambdas(skip_lambdas(&bind.expression));
    }
}

fn sc_id(uid: u64, typ: Type) -> Id {
    id(SUPERCOMBINATOR_SYMBOL, uid, typ)
}

fn sc_var(uid: u64, typ: Type) -> Expr<Id> {
    Expr::Identifier(sc_id(uid, typ))
}

#[test]
fn sample_module_full_pass() {
    let module = do_lambda_lift(sample_module());
    assert_eq!(module.bindings.len(), 5);
    let before = sample_module();
    assert_eq!(module.bindings[0], before.bindings[0]);
    assert_eq!(module.bindings[1], before.bindings[1]);

    // g captures x (of f) and f; f captures itself and the local test.
    let sc_g_type = fun(int_t(), fun(int2(), int2()));
    let sc_f_type = fun(int2(), fun(int_t(), int2()));
    let sc_g = bind(
        sc_id(0, sc_g_type.copy()),
        lam(
            id(X, 7, int_t()),
            lam(
                id(F, 6, int2()),
                lam(
                    id(Y, 9, int_t()),
                    app(
                        app(var(ADD, 1, int3()), var(X, 7, int_t())),
                        app(var(F, 6, int2()), var(Y, 9, int_t())),
                    ),
                ),
            ),
        ),
    );
    let sc_f = bind(
        sc_id(1, sc_f_type.copy()),
        lam(
            id(F, 6, int2()),
            lam(
                id(TEST, 10, int_t()),
                lam(
                    id(X, 7, int_t()),
                    let_(
                        vec![bind(
                            id(G, 8, int2()),
                            app(app(sc_var(0, sc_g_type.copy()), var(X, 7, int_t())), var(F, 6, int2())),
                        )],
                        app(app(var(ADD, 1, int3()), var(X, 7, int_t())), var(TEST, 10, int_t())),
                    ),
                ),
            ),
        ),
    );
    let test2 = bind(
        id(TEST2, 11, int2()),
        lam(
            id(X, 5, int_t()),
            let_(
                vec![
                    bind(id(TEST, 10, int_t()), int_lit(2)),
                    bind(
                        id(F, 6, int2()),
                        app(app(sc_var(1, sc_f_type.copy()), var(F, 6, int2())), var(TEST, 10, int_t())),
                    ),
                ],
                app(var(F, 6, int2()), var(X, 5, int_t())),
            ),
        ),
    );
    assert_eq!(module.bindings[2], test2);
    assert_eq!(module.bindings[3], sc_g);
    assert_eq!(module.bindings[4], sc_f);
}

// main = (let sc = \x -> x in sc) 5
#[test]
fn anonymous_lambda_is_lifted() {
    let lambda = bind(id(LAMBDA_SC, 2, int2()), lam(id(X, 3, int_t()), var(X, 3, int_t())));
    let main_rhs = app(let_(vec![lambda], var(LAMBDA_SC, 2, int2())), int_lit(5));
    let module = Module { bindings: vec![bind(id(MAIN, 1, int_t()), main_rhs)] };
    let out = do_lambda_lift(module);
    assert_eq!(out.bindings.len(), 2);
    assert_eq!(
        out.bindings[0],
        bind(id(MAIN, 1, int_t()), app(var(LAMBDA_SC, 2, int2()), int_lit(5)))
    );
    assert_eq!(
        out.bindings[1],
        bind(id(LAMBDA_SC, 2, int2()), lam(id(X, 3, int_t()), var(X, 3, int_t())))
    );
}

// f z = let h = \w -> z + w in h 1
fn capture_module() -> Module<Id> {
    let h_body = app(app(var(PLUS, 1, int3()), var(Z, 3, int_t())), var(W, 5, int_t()));
    let h = bind(id(H, 4, int2()), lam(id(W, 5, int_t()), h_body));
    let f_rhs = lam(id(Z, 3, int_t()), let_(vec![h], app(var(H, 4, int2()), int_lit(1))));
    Module { bindings: vec![bind(id(F, 2, int2()), f_rhs)] }
}

#[test]
fn captured_variable_becomes_parameter() {
    let abstracted = abstract_module(capture_module());
    let expected_h = app(
        let_(
            vec![bind(
                sc_id(0, int3()),
                lam(
                    id(Z, 3, int_t()),
                    lam(
                        id(W, 5, int_t()),
                        app(app(var(PLUS, 1, int3()), var(Z, 3, int_t())), var(W, 5, int_t())),
                    ),
                ),
            )],
            sc_var(0, int3()),
        ),
        var(Z, 3, int_t()),
    );
    let expected = bind(
        id(F, 2, int2()),
        lam(
            id(Z, 3, int_t()),
            let_(vec![bind(id(H, 4, int2()), expected_h)], app(var(H, 4, int2()), int_lit(1))),
        ),
    );
    assert_eq!(abstracted.bindings.len(), 1);
    assert_eq!(abstracted.bindings[0], expected);

    let out = lift_lambdas(abstracted);
    assert_eq!(out.bindings.len(), 2);
    assert_eq!(
        out.bindings[0],
        bind(
            id(F, 2, int2()),
            lam(
                id(Z, 3, int_t()),
                let_(
                    vec![bind(id(H, 4, int2()), app(sc_var(0, int3()), var(Z, 3, int_t())))],
                    app(var(H, 4, int2()), int_lit(1)),
                ),
            ),
        )
    );
    assert_eq!(out.bindings[1].name, sc_id(0, int3()));
}

#[test]
fn supercombinator_type_is_curried_over_captures() {
    let out = do_lambda_lift(capture_module());
    // z : Int captured, h : Int -> Int, so sc : Int -> Int -> Int
    assert_eq!(out.bindings[1].name.typ, fun(int_t(), fun(int_t(), int_t())));
    assert_eq!(out.bindings[1].name.name, Name { name: SUPERCOMBINATOR_SYMBOL, uid: 0 });
    assert!(out.bindings[1].name.constraints.is_empty());
}

// loop n = let go k = case k == 0 of { True -> n; False -> go (k - 1) } in go n
#[test]
fn self_recursive_binding_captures_itself() {
    let cond = app(app(var(EQ, 1, Type::Variable(0)), var(K, 5, int_t())), int_lit(0));
    let rec = app(
        var(GO, 4, int2()),
        app(app(var(MINUS, 2, int3()), var(K, 5, int_t())), int_lit(1)),
    );
    let case = Expr::Case(
        Box::new(cond),
        vec![
            Alt { pattern: Pattern::Constructor(id(TRUE, 6, Type::Constructor(BOOL)), vec![]), expression: var(N, 3, int_t()) },
            Alt { pattern: Pattern::Constructor(id(FALSE, 7, Type::Constructor(BOOL)), vec![]), expression: rec },
        ],
    );
    let go = bind(id(GO, 4, int2()), lam(id(K, 5, int_t()), case));
    let loop_rhs = lam(id(N, 3, int_t()), let_(vec![go], app(var(GO, 4, int2()), var(N, 3, int_t()))));
    let module = Module { bindings: vec![bind(id(LOOP, 8, int2()), loop_rhs)] };
    let out = do_lambda_lift(module);
    assert_eq!(out.bindings.len(), 2);
    // go = sc n go, with sc : Int -> (Int -> Int) -> Int -> Int
    let sc_type = fun(int_t(), fun(int2(), int2()));
    assert_eq!(
        out.bindings[0],
        bind(
            id(LOOP, 8, int2()),
            lam(
                id(N, 3, int_t()),
                let_(
                    vec![bind(
                        id(GO, 4, int2()),
                        app(app(sc_var(0, sc_type.copy()), var(N, 3, int_t())), var(GO, 4, int2())),
                    )],
                    app(var(GO, 4, int2()), var(N, 3, int_t())),
                ),
            ),
        )
    );
    let mut params = vec![];
    let mut e = &out.bindings[1].expression;
    while let Expr::Lambda(v, body) = e {
        params.push(v.name);
        e = body;
    }
    assert_eq!(params, vec![Name { name: N, uid: 3 }, Name { name: GO, uid: 4 }, Name { name: K, uid: 5 }]);
    assert_eq!(out.bindings[1].name.typ, sc_type);
}

#[test]
fn top_level_lambda_unchanged() {
    let add = || bind(id(ADD, 1, int3()), lam(id(X, 2, int_t()), lam(id(Y, 3, int_t()), int_lit(2))));
    let out = do_lambda_lift(Module { bindings: vec![add()] });
    assert_eq!(out.bindings, vec![add()]);
}

#[test]
fn empty_module() {
    let out = do_lambda_lift(Module { bindings: vec![] });
    assert!(out.bindings.is_empty());
}

#[test]
fn empty_let_is_removed() {
    let rhs = let_(vec![], let_(vec![], int_lit(3)));
    let out = lift_lambdas(Module { bindings: vec![bind(id(MAIN, 1, int_t()), rhs)] });
    assert_eq!(out.bindings, vec![bind(id(MAIN, 1, int_t()), int_lit(3))]);
}

#[test]
fn let_with_lambda_body_becomes_lambda_binding() {
    // x = let h = \w -> w in \y -> h y   (nothing captured)
    let h = bind(id(H, 2, int2()), lam(id(W, 3, int_t()), var(W, 3, int_t())));
    let inner = let_(vec![h], lam(id(Y, 5, int_t()), app(var(H, 2, int2()), var(Y, 5, int_t()))));
    let x = bind(id(X, 4, int2()), inner);
    let rhs = let_(vec![x], app(var(X, 4, int2()), int_lit(1)));
    let out = do_lambda_lift(Module { bindings: vec![bind(id(MAIN, 1, int_t()), rhs)] });
    assert_eq!(out.bindings.len(), 3);
    assert_eq!(out.bindings[0], bind(id(MAIN, 1, int_t()), app(var(X, 4, int2()), int_lit(1))));
    assert_eq!(out.bindings[1].name, id(H, 2, int2()));
    assert_eq!(out.bindings[2].name, id(X, 4, int2()));
    assert_no_lambdas(skip_lambdas(&out.bindings[2].expression));
}

#[test]
fn pattern_variables_are_not_captured() {
    // main = \p -> let k = case p of { Pair a b -> a } in k
    let pat = Pattern::Constructor(id(TRUE, 9, Type::Variable(1)), vec![id(X, 3, int_t()), id(Y, 4, int_t())]);
    let case = Expr::Case(Box::new(var(Z, 2, Type::Variable(1))), vec![Alt { pattern: pat, expression: var(X, 3, int_t()) }]);
    let k = bind(id(K, 5, int_t()), case);
    let rhs = lam(id(Z, 2, Type::Variable(1)), let_(vec![k], var(K, 5, int_t())));
    let module = abstract_module(Module { bindings: vec![bind(id(MAIN, 1, int_t()), rhs)] });
    // k captures only z
    let mut args = vec![];
    let rhs = skip_lambdas(&module.bindings[0].expression);
    match rhs {
        Expr::Let(binds, _) => {
            match get_let(&binds[0].expression, &mut args) {
                Expr::Let(scs, _) => {
                    assert!(check_args(&scs[0].expression, &[Z]));
                    assert_eq!(scs[0].name.typ, fun(Type::Variable(1), int_t()));
                }
                other => panic!("Expected Let, found {:?}", other),
            }
        }
        other => panic!("Expected Let, found {:?}", other),
    }
    assert_eq!(args, vec![Z]);
}

#[test]
fn lifted_module_has_no_lambda_or_empty_let_inside() {
    fn check(expr: &Expr<Id>) {
        match expr {
            Expr::Let(binds, body) => {
                assert!(!binds.is_empty());
                for b in binds.iter() {
                    assert!(!matches!(b.expression, Expr::Lambda(..)));
                    check(&b.expression);
                }
                check(body);
            }
            Expr::Apply(f, a) => {
                check(f);
                check(a);
            }
            Expr::Lambda(_, b) => check(b),
            Expr::Case(s, alts) => {
                check(s);
                for alt in alts.iter() {
                    check(&alt.expression);
                }
            }
            _ => (),
        }
    }
    for m in [sample_module(), capture_module()] {
        let out = do_lambda_lift(m);
        for b in out.bindings.iter() {
            check(&b.expression);
        }
    }
}

#[test]
fn name_supply_counts_up() {
    let mut supply = NameSupply::new();
    assert_eq!(supply.from_symbol(7), Name { name: 7, uid: 0 });
    assert_eq!(supply.from_symbol(8), Name { name: 8, uid: 1 });
    assert_eq!(supply.next, 2);
    let mut last = NameSupply { next: u64::MAX };
    assert_eq!(last.from_symbol(1), Name { name: 1, uid: u64::MAX });
    assert_eq!(last.next, 0);
}

#[test]
fn copies_are_equal() {
    let t = fun(Type::Application(Box::new(Type::Constructor(4)), Box::new(Type::Variable(2))), int_t());
    assert_eq!(t.copy(), t);
    let i = Id::new(Name { name: 1, uid: 2 }, t.copy(), vec![Constraint { class: Name { name: 3, uid: 4 }, variable: 2 }]);
    assert_eq!(i.copy(), i);
    assert_eq!(i.get_type(), &t);
}
