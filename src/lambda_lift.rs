//! The whole pass, abstraction then lifting, and the laws that hold of the
//! modules it produces.
use vstd::prelude::*;
use crate::ast::{bindings_view, AltTerm, BindingTerm, Id, IdView, Module, Term, Type, spec_function_type};
use crate::free_variables::{abstract_bindings_of_module, abstract_module, curried_type};
use crate::lift::{lift_alts, lift_bindings, lift_bindings_of_module, lift_lambdas, lift_term, lift_top_level, let_or_body};

verus! {

/// The bindings of a module after the whole pass.
pub open spec fn transform(bs: Seq<BindingTerm<IdView>>) -> Seq<BindingTerm<IdView>> {
    lift_bindings_of_module(abstract_bindings_of_module(bs))
}

/// Abstracts the free variables of every local binding, then lifts every
/// local lambda binding to the top level.
pub fn do_lambda_lift(module: Module<Id>) -> (r: Module<Id>)
    ensures
        bindings_view(r.bindings@) == transform(bindings_view(module.bindings@)),
{
    lift_lambdas(abstract_module(module))
}

/// No `let` in `t` has an empty list of bindings.
pub open spec fn no_empty_lets<V>(t: Term<V>) -> bool
    decreases t,
{
    match t {
        Term::Identifier(_) => true,
        Term::Literal(_) => true,
        Term::Apply(f, a) => no_empty_lets(*f) && no_empty_lets(*a),
        Term::Lambda(_, b) => no_empty_lets(*b),
        Term::Let(bs, body) => {
            &&& bs.len() > 0
            &&& forall|i: int| 0 <= i < bs.len() ==> no_empty_lets(#[trigger] bs[i].expression)
            &&& no_empty_lets(*body)
        },
        Term::Case(s, alts) => {
            &&& no_empty_lets(*s)
            &&& forall|i: int| 0 <= i < alts.len() ==> no_empty_lets(#[trigger] alts[i].expression)
        },
    }
}

/// No `let` in `t` binds a name to a lambda.
pub open spec fn no_lambda_bindings<V>(t: Term<V>) -> bool
    decreases t,
{
    match t {
        Term::Identifier(_) => true,
        Term::Literal(_) => true,
        Term::Apply(f, a) => no_lambda_bindings(*f) && no_lambda_bindings(*a),
        Term::Lambda(_, b) => no_lambda_bindings(*b),
        Term::Let(bs, body) => {
            &&& forall|i: int| 0 <= i < bs.len() ==> !(#[trigger] bs[i].expression is Lambda)
            &&& forall|i: int| 0 <= i < bs.len() ==> no_lambda_bindings(#[trigger] bs[i].expression)
            &&& no_lambda_bindings(*body)
        },
        Term::Case(s, alts) => {
            &&& no_lambda_bindings(*s)
            &&& forall|i: int| 0 <= i < alts.len() ==> no_lambda_bindings(#[trigger] alts[i].expression)
        },
    }
}

/// `t` has neither an empty `let` nor a `let` that binds a lambda.
pub open spec fn lifted_form<V>(t: Term<V>) -> bool {
    no_empty_lets(t) && no_lambda_bindings(t)
}

/// Every binding of `bs` has a right-hand side in lifted form.
pub open spec fn all_lifted_form<V>(bs: Seq<BindingTerm<V>>) -> bool {
    forall|i: int| 0 <= i < bs.len() ==> lifted_form(#[trigger] bs[i].expression)
}

proof fn lemma_lift_term_form<V>(t: Term<V>)
    ensures
        lifted_form(lift_term(t).0),
        all_lifted_form(lift_term(t).1),
    decreases t, 0nat,
{
    match t {
        Term::Identifier(_) => {},
        Term::Literal(_) => {},
        Term::Apply(f, a) => {
            lemma_lift_term_form(*f);
            lemma_lift_term_form(*a);
        },
        Term::Lambda(_, b) => {
            lemma_lift_term_form(*b);
        },
        Term::Let(bs, body) => {
            lemma_lift_bindings_form(bs, bs.len() as int);
            lemma_lift_term_form(*body);
            let (kept, _) = lift_bindings(bs, bs.len() as int);
            let (body2, _) = lift_term(*body);
            if kept.len() > 0 {
                let r = let_or_body(kept, body2);
                assert(r == Term::Let(kept, Box::new(body2)));
                assert(no_empty_lets(r));
                assert(no_lambda_bindings(r));
            }
        },
        Term::Case(s, alts) => {
            lemma_lift_term_form(*s);
            lemma_lift_alts_form(alts, alts.len() as int);
            let (alts2, _) = lift_alts(alts, alts.len() as int);
            let r = lift_term(t).0;
            assert(forall|i: int| 0 <= i < alts2.len() ==> lifted_form(#[trigger] alts2[i].expression));
            assert(no_empty_lets(r));
            assert(no_lambda_bindings(r));
        },
    }
}

proof fn lemma_lift_bindings_form<V>(bs: Seq<BindingTerm<V>>, k: int)
    requires
        0 <= k <= bs.len(),
    ensures
        all_lifted_form(lift_bindings(bs, k).0),
        forall|i: int| 0 <= i < lift_bindings(bs, k).0.len()
            ==> !(#[trigger] lift_bindings(bs, k).0[i].expression is Lambda),
        all_lifted_form(lift_bindings(bs, k).1),
    decreases bs, k,
{
    if k > 0 {
        lemma_lift_bindings_form(bs, k - 1);
        lemma_lift_term_form(bs[k - 1].expression);
    }
}

proof fn lemma_lift_alts_form<V>(alts: Seq<AltTerm<V>>, k: int)
    requires
        0 <= k <= alts.len(),
    ensures
        forall|i: int| 0 <= i < lift_alts(alts, k).0.len()
            ==> lifted_form(#[trigger] lift_alts(alts, k).0[i].expression),
        all_lifted_form(lift_alts(alts, k).1),
    decreases alts, k,
{
    if k > 0 {
        lemma_lift_alts_form(alts, k - 1);
        lemma_lift_term_form(alts[k - 1].expression);
    }
}

proof fn lemma_lift_top_level_form<V>(bs: Seq<BindingTerm<V>>, k: int)
    requires
        0 <= k <= bs.len(),
    ensures
        all_lifted_form(lift_top_level(bs, k).0),
        all_lifted_form(lift_top_level(bs, k).1),
    decreases k,
{
    if k > 0 {
        lemma_lift_top_level_form(bs, k - 1);
        lemma_lift_term_form(bs[k - 1].expression);
    }
}

/// After lifting, no `let` anywhere in the module has an empty list of
/// bindings, and no `let` binds a name to a lambda.
pub proof fn lemma_lifted_module_form<V>(bs: Seq<BindingTerm<V>>)
    ensures
        forall|i: int| 0 <= i < lift_bindings_of_module(bs).len()
            ==> no_empty_lets(#[trigger] lift_bindings_of_module(bs)[i].expression),
        forall|i: int| 0 <= i < lift_bindings_of_module(bs).len()
            ==> no_lambda_bindings(#[trigger] lift_bindings_of_module(bs)[i].expression),
{
    lemma_lift_top_level_form(bs, bs.len() as int);
    let r = lift_bindings_of_module(bs);
    assert(all_lifted_form(r));
}

/// After the whole pass, no `let` anywhere in the module has an empty list
/// of bindings.
pub proof fn lemma_transform_no_empty_lets(bs: Seq<BindingTerm<IdView>>)
    ensures
        forall|i: int| 0 <= i < transform(bs).len()
            ==> no_empty_lets(#[trigger] transform(bs)[i].expression),
{
    lemma_lifted_module_form(abstract_bindings_of_module(bs));
}

/// After the whole pass, no `let` anywhere in the module binds a name to a
/// lambda: every such binding stands at the top level.
pub proof fn lemma_transform_no_lambda_bindings(bs: Seq<BindingTerm<IdView>>)
    ensures
        forall|i: int| 0 <= i < transform(bs).len()
            ==> no_lambda_bindings(#[trigger] transform(bs)[i].expression),
{
    lemma_lifted_module_form(abstract_bindings_of_module(bs));
}

/// The type of a supercombinator over the variables `v1 .. vk` with result
/// type `ret` reads `T_v1 -> (T_v2 -> ... (T_vk -> ret))`.
pub proof fn lemma_curried_type_head(vs: Seq<IdView>, ret: Type)
    requires
        vs.len() > 0,
    ensures
        curried_type(vs, ret) == spec_function_type(vs[0].typ, curried_type(vs.subrange(1, vs.len() as int), ret)),
    decreases vs.len(),
{
    if vs.len() > 1 {
        let ret2 = spec_function_type(vs.last().typ, ret);
        lemma_curried_type_head(vs.drop_last(), ret2);
        let tail = vs.subrange(1, vs.len() as int);
        assert(vs.drop_last().subrange(1, vs.len() - 1) =~= tail.drop_last());
        assert(tail.last() == vs.last());
        assert(vs.drop_last()[0] == vs[0]);
        assert(curried_type(tail, ret) == curried_type(tail.drop_last(), ret2));
        assert(curried_type(vs, ret) == curried_type(vs.drop_last(), ret2));
    } else {
        assert(vs.subrange(1, vs.len() as int) =~= Seq::<IdView>::empty());
        assert(vs.drop_last() =~= Seq::<IdView>::empty());
        assert(curried_type(vs.drop_last(), spec_function_type(vs.last().typ, ret))
            == spec_function_type(vs.last().typ, ret));
        assert(curried_type(vs.subrange(1, vs.len() as int), ret) == ret);
    }
}

} // verus!
