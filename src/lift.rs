//! Lambda lifting: every local binding whose right-hand side is a lambda is
//! moved out of its `let` to the top level of the module, and every `let`
//! left without bindings is replaced by its body.
use vstd::prelude::*;
use crate::ast::{
    alts_view, bindings_view, Alt, AltTerm, Binding, BindingTerm, Expr, Module, Term,
};

verus! {

/// The `let` of `kept` around `body`, or `body` alone when nothing is kept.
pub open spec fn let_or_body<V>(kept: Seq<BindingTerm<V>>, body: Term<V>) -> Term<V> {
    if kept.len() == 0 {
        body
    } else {
        Term::Let(kept, Box::new(body))
    }
}

/// Lifting of an expression: the expression left behind, and the bindings
/// taken out of it, in the order they were met.
pub open spec fn lift_term<V>(t: Term<V>) -> (Term<V>, Seq<BindingTerm<V>>)
    decreases t, 0nat,
{
    match t {
        Term::Identifier(_) => (t, seq![]),
        Term::Literal(_) => (t, seq![]),
        Term::Apply(f, a) => {
            let (f2, lf) = lift_term(*f);
            let (a2, la) = lift_term(*a);
            (Term::Apply(Box::new(f2), Box::new(a2)), lf + la)
        },
        Term::Lambda(v, b) => {
            let (b2, lb) = lift_term(*b);
            (Term::Lambda(v, Box::new(b2)), lb)
        },
        Term::Let(bs, body) => {
            let (kept, lbs) = lift_bindings(bs, bs.len() as int);
            let (body2, lbody) = lift_term(*body);
            (let_or_body(kept, body2), lbs + lbody)
        },
        Term::Case(s, alts) => {
            let (s2, ls) = lift_term(*s);
            let (alts2, lalts) = lift_alts(alts, alts.len() as int);
            (Term::Case(Box::new(s2), alts2), ls + lalts)
        },
    }
}

/// Lifting of the first `k` bindings of a `let`: the bindings that stay, and
/// those taken out. Each right-hand side is lifted first; a binding whose
/// lifted right-hand side is a lambda is taken out after what its own
/// right-hand side gave up.
pub open spec fn lift_bindings<V>(bs: Seq<BindingTerm<V>>, k: int) -> (Seq<BindingTerm<V>>, Seq<BindingTerm<V>>)
    decreases bs, k,
{
    if k <= 0 || k > bs.len() {
        (seq![], seq![])
    } else {
        let (kept, lifted) = lift_bindings(bs, k - 1);
        let b = bs[k - 1];
        let (e2, le) = lift_term(b.expression);
        let b2 = BindingTerm { name: b.name, expression: e2 };
        if e2 is Lambda {
            (kept, (lifted + le).push(b2))
        } else {
            (kept.push(b2), lifted + le)
        }
    }
}

/// Lifting of the first `k` alternatives of a `case`.
pub open spec fn lift_alts<V>(alts: Seq<AltTerm<V>>, k: int) -> (Seq<AltTerm<V>>, Seq<BindingTerm<V>>)
    decreases alts, k,
{
    if k <= 0 || k > alts.len() {
        (seq![], seq![])
    } else {
        let (prev, lifted) = lift_alts(alts, k - 1);
        let a = alts[k - 1];
        let (e2, le) = lift_term(a.expression);
        (prev.push(AltTerm { pattern: a.pattern, expression: e2 }), lifted + le)
    }
}

/// Lifting of the first `k` top-level bindings: the rewritten top-level
/// bindings, and all the bindings taken out of them.
pub open spec fn lift_top_level<V>(bs: Seq<BindingTerm<V>>, k: int) -> (Seq<BindingTerm<V>>, Seq<BindingTerm<V>>)
    decreases k,
{
    if k <= 0 || k > bs.len() {
        (seq![], seq![])
    } else {
        let (prev, lifted) = lift_top_level(bs, k - 1);
        let b = bs[k - 1];
        let (e2, le) = lift_term(b.expression);
        (prev.push(BindingTerm { name: b.name, expression: e2 }), lifted + le)
    }
}

/// The bindings of a module after lifting: its own bindings, rewritten,
/// followed by every binding taken out of them.
pub open spec fn lift_bindings_of_module<V>(bs: Seq<BindingTerm<V>>) -> Seq<BindingTerm<V>> {
    let (top, lifted) = lift_top_level(bs, bs.len() as int);
    top + lifted
}

proof fn lemma_bindings_view_append<T: View>(a: Seq<Binding<T>>, b: Seq<Binding<T>>)
    ensures
        bindings_view(a + b) == bindings_view(a) + bindings_view(b),
{
    assert(bindings_view(a + b) =~= bindings_view(a) + bindings_view(b));
}

/// Lifts the bindings with a lambda right-hand side out of `e`, appending
/// them to `out`.
fn lift_expr<T: View>(out: &mut Vec<Binding<T>>, e: Expr<T>) -> (r: Expr<T>)
    ensures
        r@ == lift_term(e@).0,
        bindings_view(final(out)@) == bindings_view(old(out)@) + lift_term(e@).1,
    decreases e, 0nat,
{
    let ghost te = e@;
    let ghost out0 = bindings_view(out@);
    match e {
        Expr::Identifier(i) => {
            assert(bindings_view(out@) =~= out0 + Seq::<BindingTerm<T::V>>::empty());
            Expr::Identifier(i)
        },
        Expr::Literal(l) => {
            assert(bindings_view(out@) =~= out0 + Seq::<BindingTerm<T::V>>::empty());
            Expr::Literal(l)
        },
        Expr::Apply(f, a) => {
            let f2 = lift_expr(out, *f);
            let a2 = lift_expr(out, *a);
            assert(bindings_view(out@) =~= out0 + lift_term(te).1);
            Expr::Apply(Box::new(f2), Box::new(a2))
        },
        Expr::Lambda(v, b) => {
            let b2 = lift_expr(out, *b);
            Expr::Lambda(v, Box::new(b2))
        },
        Expr::Let(bs, body) => {
            let ghost tbs = bindings_view(bs@);
            proof {
                if let Term::Let(s, _) = te {
                    assert(s =~= tbs);
                }
            }
            let kept = lift_let_bindings(out, bs);
            let body2 = lift_expr(out, *body);
            assert(bindings_view(out@) =~= out0 + lift_term(te).1);
            if kept.len() == 0 {
                body2
            } else {
                let ghost tkept = bindings_view(kept@);
                let r = Expr::Let(kept, Box::new(body2));
                proof {
                    if let Term::Let(s, _) = r@ {
                        assert(s =~= tkept);
                    }
                }
                r
            }
        },
        Expr::Case(scrutinee, alts) => {
            let ghost talts = alts_view(alts@);
            proof {
                if let Term::Case(_, s) = te {
                    assert(s =~= talts);
                }
            }
            let s2 = lift_expr(out, *scrutinee);
            let alts2 = lift_case_alts(out, alts);
            assert(bindings_view(out@) =~= out0 + lift_term(te).1);
            let ghost talts2 = alts_view(alts2@);
            let r = Expr::Case(Box::new(s2), alts2);
            proof {
                if let Term::Case(_, s) = r@ {
                    assert(s =~= talts2);
                }
            }
            r
        },
    }
}

/// Lifts each binding of a `let` in order, returning those that stay.
fn lift_let_bindings<T: View>(out: &mut Vec<Binding<T>>, bs: Vec<Binding<T>>) -> (r: Vec<Binding<T>>)
    ensures
        bindings_view(r@) == lift_bindings(bindings_view(bs@), bs.len() as int).0,
        bindings_view(final(out)@) == bindings_view(old(out)@) + lift_bindings(bindings_view(bs@), bs.len() as int).1,
    decreases bs, 0nat,
{
    let ghost orig = bs;
    let ghost tbs = bindings_view(bs@);
    let ghost out0 = bindings_view(out@);
    let n = bs.len();
    let mut rest = bs;
    let mut kept: Vec<Binding<T>> = Vec::new();
    let mut k: usize = 0;
    assert(bindings_view(kept@) =~= Seq::<BindingTerm<T::V>>::empty());
    assert(bindings_view(out@) =~= out0 + Seq::<BindingTerm<T::V>>::empty());
    while k < n
        invariant
            n == orig.len(),
            orig == bs,
            tbs == bindings_view(orig@),
            k <= n,
            rest@ == orig@.subrange(k as int, n as int),
            bindings_view(kept@) == lift_bindings(tbs, k as int).0,
            bindings_view(out@) == out0 + lift_bindings(tbs, k as int).1,
        decreases n - k,
    {
        let b = rest.remove(0);
        assert(b == orig@[k as int]);
        assert(decreases_to!(orig => orig@[k as int].expression));
        let Binding { name, expression } = b;
        let ghost before = bindings_view(out@);
        let e2 = lift_expr(out, expression);
        let ghost nv = name@;
        let ghost ev = e2@;
        let is_lambda = matches!(e2, Expr::Lambda(..));
        assert(is_lambda == (ev is Lambda));
        if is_lambda {
            let ghost prev = bindings_view(out@);
            out.push(Binding { name, expression: e2 });
            assert(bindings_view(out@) =~= prev.push(BindingTerm { name: nv, expression: ev }));
        } else {
            let ghost prev = bindings_view(kept@);
            kept.push(Binding { name, expression: e2 });
            assert(bindings_view(kept@) =~= prev.push(BindingTerm { name: nv, expression: ev }));
        }
        assert(rest@ =~= orig@.subrange(k + 1, n as int));
        k = k + 1;
    }
    kept
}

/// Lifts each alternative of a `case` in order.
fn lift_case_alts<T: View>(out: &mut Vec<Binding<T>>, alts: Vec<Alt<T>>) -> (r: Vec<Alt<T>>)
    ensures
        alts_view(r@) == lift_alts(alts_view(alts@), alts.len() as int).0,
        bindings_view(final(out)@) == bindings_view(old(out)@) + lift_alts(alts_view(alts@), alts.len() as int).1,
    decreases alts, 0nat,
{
    let ghost orig = alts;
    let ghost talts = alts_view(alts@);
    let ghost out0 = bindings_view(out@);
    let n = alts.len();
    let mut rest = alts;
    let mut done: Vec<Alt<T>> = Vec::new();
    let mut k: usize = 0;
    assert(alts_view(done@) =~= Seq::<AltTerm<T::V>>::empty());
    assert(bindings_view(out@) =~= out0 + Seq::<BindingTerm<T::V>>::empty());
    while k < n
        invariant
            n == orig.len(),
            orig == alts,
            talts == alts_view(orig@),
            k <= n,
            rest@ == orig@.subrange(k as int, n as int),
            alts_view(done@) == lift_alts(talts, k as int).0,
            bindings_view(out@) == out0 + lift_alts(talts, k as int).1,
        decreases n - k,
    {
        let a = rest.remove(0);
        assert(a == orig@[k as int]);
        assert(decreases_to!(orig => orig@[k as int].expression));
        let Alt { pattern, expression } = a;
        let e2 = lift_expr(out, expression);
        let ghost prev = alts_view(done@);
        let ghost pv = pattern@;
        done.push(Alt { pattern, expression: e2 });
        assert(alts_view(done@) =~= prev.push(AltTerm { pattern: pv, expression: e2@ }));
        assert(rest@ =~= orig@.subrange(k + 1, n as int));
        k = k + 1;
    }
    done
}

/// Lifts all lambdas in the module to the top level of the program.
pub fn lift_lambdas<T: View>(module: Module<T>) -> (r: Module<T>)
    ensures
        bindings_view(r.bindings@) == lift_bindings_of_module(bindings_view(module.bindings@)),
{
    let ghost tbs = bindings_view(module.bindings@);
    let ghost orig = module.bindings;
    let mut rest = module.bindings;
    let n = rest.len();
    let mut top: Vec<Binding<T>> = Vec::new();
    let mut lifted: Vec<Binding<T>> = Vec::new();
    let mut k: usize = 0;
    assert(bindings_view(top@) =~= Seq::<BindingTerm<T::V>>::empty());
    assert(bindings_view(lifted@) =~= Seq::<BindingTerm<T::V>>::empty());
    while k < n
        invariant
            n == orig.len(),
            tbs == bindings_view(orig@),
            k <= n,
            rest@ == orig@.subrange(k as int, n as int),
            (bindings_view(top@), bindings_view(lifted@)) == lift_top_level(tbs, k as int),
        decreases n - k,
    {
        let b = rest.remove(0);
        assert(b == orig@[k as int]);
        let Binding { name, expression } = b;
        let e2 = lift_expr(&mut lifted, expression);
        let ghost prev = bindings_view(top@);
        let ghost ev = e2@;
        top.push(Binding { name, expression: e2 });
        assert(bindings_view(top@) =~= prev.push(BindingTerm { name: name@, expression: ev }));
        assert(rest@ =~= orig@.subrange(k + 1, n as int));
        k = k + 1;
    }
    let ghost t = top@;
    let ghost l = lifted@;
    top.append(&mut lifted);
    proof {
        lemma_bindings_view_append(t, l);
    }
    Module { bindings: top }
}

} // verus!
