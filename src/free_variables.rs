//! Free-variable abstraction: every local binding whose right-hand side
//! captures local variables is rewritten to apply a fresh supercombinator,
//! which takes the captured variables as leading parameters.
use vstd::prelude::*;
use crate::ast::{
    alts_view, bindings_view, Module, Alt, AltTerm, Binding, BindingTerm, Expr, Id, IdView, Name, Pattern, PatternTerm, Term, Type,
    function_type_, spec_function_type,
};

verus! {

/// The interned symbol given to every generated supercombinator name.
pub const SUPERCOMBINATOR_SYMBOL: u64 = 0xffff_ffff_ffff_ffff;

/// The unique number drawn after `n` from the name supply.
pub open spec fn next_uid(n: u64) -> u64 {
    if n == u64::MAX { 0 } else { (n + 1) as u64 }
}

/// `true` when some entry of `f` is named `n`.
pub open spec fn has_name(f: Seq<IdView>, n: Name) -> bool {
    exists|i: int| 0 <= i < f.len() && f[i].name == n
}

/// The entries of `f`, then those of `g` whose name `f` does not hold.
pub open spec fn union(f: Seq<IdView>, g: Seq<IdView>) -> Seq<IdView> {
    f + g.filter(|v: IdView| !has_name(f, v.name))
}

/// The entries of `f` whose name is not in `ns`.
pub open spec fn remove_names(f: Seq<IdView>, ns: Seq<Name>) -> Seq<IdView> {
    f.filter(|v: IdView| !ns.contains(v.name))
}

/// The names bound by a pattern.
pub open spec fn pattern_names(p: PatternTerm<IdView>) -> Seq<Name> {
    match p {
        PatternTerm::Identifier(i) => seq![i.name],
        PatternTerm::Constructor(_, args) => args.map_values(|a: IdView| a.name),
        _ => seq![],
    }
}

/// The names bound by a group of `let` bindings.
pub open spec fn binding_names(bs: Seq<BindingTerm<IdView>>) -> Seq<Name> {
    bs.map_values(|b: BindingTerm<IdView>| b.name.name)
}

/// `t1 -> t2 -> ... -> tk -> ret` for the types `ti` of the variables `vs`.
pub open spec fn curried_type(vs: Seq<IdView>, ret: Type) -> Type
    decreases vs.len(),
{
    if vs.len() == 0 {
        ret
    } else {
        curried_type(vs.drop_last(), spec_function_type(vs.last().typ, ret))
    }
}

/// `\v1 -> \v2 -> ... -> \vk -> body`.
pub open spec fn lambdas(vs: Seq<IdView>, body: Term<IdView>) -> Term<IdView>
    decreases vs.len(),
{
    if vs.len() == 0 {
        body
    } else {
        lambdas(vs.drop_last(), Term::Lambda(vs.last(), Box::new(body)))
    }
}

/// `head v1 v2 ... vk`.
pub open spec fn applications(head: Term<IdView>, vs: Seq<IdView>) -> Term<IdView>
    decreases vs.len(),
{
    if vs.len() == 0 {
        head
    } else {
        Term::Apply(
            Box::new(applications(head, vs.drop_last())),
            Box::new(Term::Identifier(vs.last())),
        )
    }
}

/// The supercombinator that abstracts a right-hand side of type `typ`
/// over the variables `free`, named with the unique number `uid`.
pub open spec fn supercombinator_id(free: Seq<IdView>, typ: Type, uid: u64) -> IdView {
    IdView {
        name: Name { name: SUPERCOMBINATOR_SYMBOL, uid },
        typ: curried_type(free, typ),
        constraints: seq![],
    }
}

/// The right-hand side `e` (of type `typ`) with its captured variables `free`
/// made explicit: `let sc = \v1 .. vk -> e in sc v1 .. vk`, where `sc` takes
/// the unique number `uid`; `e` itself when nothing is captured.
pub open spec fn abstracted(e: Term<IdView>, free: Seq<IdView>, typ: Type, uid: u64) -> Term<IdView> {
    if free.len() == 0 {
        e
    } else {
        let sc = supercombinator_id(free, typ, uid);
        applications(
            Term::Let(
                seq![BindingTerm { name: sc, expression: lambdas(free, e) }],
                Box::new(Term::Identifier(sc)),
            ),
            free,
        )
    }
}

/// The unique number that follows abstracting over `free` from `uid`.
pub open spec fn uid_after(free: Seq<IdView>, uid: u64) -> u64 {
    if free.len() == 0 { uid } else { next_uid(uid) }
}

/// Abstraction of an expression `t` whose enclosing local binders are
/// `scope`, drawing fresh names from `uid` on: the rewritten expression, its
/// free local variables in order of first occurrence, and the next unique
/// number.
pub open spec fn abstract_term(t: Term<IdView>, scope: Seq<Name>, uid: u64) -> (Term<IdView>, Seq<IdView>, u64)
    decreases t, 0nat,
{
    match t {
        Term::Identifier(i) => (t, if scope.contains(i.name) { seq![i] } else { seq![] }, uid),
        Term::Literal(_) => (t, seq![], uid),
        Term::Apply(f, a) => {
            let (f2, ff, u1) = abstract_term(*f, scope, uid);
            let (a2, fa, u2) = abstract_term(*a, scope, u1);
            (Term::Apply(Box::new(f2), Box::new(a2)), union(ff, fa), u2)
        },
        Term::Lambda(v, b) => {
            let (b2, fb, u1) = abstract_term(*b, scope.push(v.name), uid);
            (Term::Lambda(v, Box::new(b2)), remove_names(fb, seq![v.name]), u1)
        },
        Term::Let(bs, body) => {
            let inner = scope + binding_names(bs);
            let (bs2, fbs, u1) = abstract_bindings(bs, inner, uid, bs.len() as int);
            let (body2, fbody, u2) = abstract_term(*body, inner, u1);
            (Term::Let(bs2, Box::new(body2)), remove_names(union(fbs, fbody), binding_names(bs)), u2)
        },
        Term::Case(s, alts) => {
            let (s2, fs, u1) = abstract_term(*s, scope, uid);
            let (alts2, falts, u2) = abstract_alts(alts, scope, u1, alts.len() as int);
            (Term::Case(Box::new(s2), alts2), union(fs, falts), u2)
        },
    }
}

/// Abstraction of the first `k` bindings of a `let` group whose names are
/// already part of `scope`: each right-hand side is abstracted in turn and
/// then rewritten over its own free variables.
pub open spec fn abstract_bindings(bs: Seq<BindingTerm<IdView>>, scope: Seq<Name>, uid: u64, k: int) -> (Seq<BindingTerm<IdView>>, Seq<IdView>, u64)
    decreases bs, k,
{
    if k <= 0 || k > bs.len() {
        (seq![], seq![], uid)
    } else {
        let (prev, fprev, u1) = abstract_bindings(bs, scope, uid, k - 1);
        let b = bs[k - 1];
        let (e2, fe, u2) = abstract_term(b.expression, scope, u1);
        let e3 = abstracted(e2, fe, b.name.typ, u2);
        (prev.push(BindingTerm { name: b.name, expression: e3 }), union(fprev, fe), uid_after(fe, u2))
    }
}

/// Abstraction of the first `k` alternatives of a `case`.
pub open spec fn abstract_alts(alts: Seq<AltTerm<IdView>>, scope: Seq<Name>, uid: u64, k: int) -> (Seq<AltTerm<IdView>>, Seq<IdView>, u64)
    decreases alts, k,
{
    if k <= 0 || k > alts.len() {
        (seq![], seq![], uid)
    } else {
        let (prev, fprev, u1) = abstract_alts(alts, scope, uid, k - 1);
        let a = alts[k - 1];
        let names = pattern_names(a.pattern);
        let (e2, fe, u2) = abstract_term(a.expression, scope + names, u1);
        (prev.push(AltTerm { pattern: a.pattern, expression: e2 }), union(fprev, remove_names(fe, names)), u2)
    }
}


/// The views of a list of identifiers.
pub open spec fn ids_view(s: Seq<Id>) -> Seq<IdView> {
    s.map_values(|i: Id| i@)
}

/// A source of fresh names: each name it hands out carries the next
/// unique number.
pub struct NameSupply {
    pub next: u64,
}

impl NameSupply {
    pub fn new() -> (r: NameSupply)
        ensures
            r.next == 0,
    {
        NameSupply { next: 0 }
    }

    /// A fresh name with the interned symbol `hint`.
    pub fn from_symbol(&mut self, hint: u64) -> (r: Name)
        ensures
            r == (Name { name: hint, uid: old(self).next }),
            final(self).next == next_uid(old(self).next),
    {
        let r = Name { name: hint, uid: self.next };
        self.next = self.next.wrapping_add(1);
        r
    }
}

fn contains_name(names: &Vec<Name>, n: Name) -> (r: bool)
    ensures
        r == names@.contains(n),
{
    let mut i: usize = 0;
    while i < names.len()
        invariant
            i <= names.len(),
            forall|j: int| 0 <= j < i ==> names@[j] != n,
        decreases names.len() - i,
    {
        if names[i] == n {
            return true;
        }
        i = i + 1;
    }
    false
}

fn free_has_name(free: &Vec<Id>, n: Name) -> (r: bool)
    ensures
        r == has_name(ids_view(free@), n),
{
    let mut i: usize = 0;
    while i < free.len()
        invariant
            i <= free.len(),
            forall|j: int| 0 <= j < i ==> free@[j].name != n,
        decreases free.len() - i,
    {
        if free[i].name == n {
            assert(ids_view(free@)[i as int].name == n);
            return true;
        }
        i = i + 1;
    }
    false
}

/// Appends to `free` the entries of `more` whose name it does not hold yet.
fn union_into(free: &mut Vec<Id>, more: &Vec<Id>)
    ensures
        ids_view(final(free)@) == union(ids_view(old(free)@), ids_view(more@)),
{
    let ghost f = ids_view(free@);
    let ghost g = ids_view(more@);
    let ghost pred = |v: IdView| !has_name(f, v.name);
    let mut added: Vec<Id> = Vec::new();
    let mut i: usize = 0;
    while i < more.len()
        invariant
            i <= more.len(),
            f == ids_view(free@),
            g == ids_view(more@),
            pred == (|v: IdView| !has_name(f, v.name)),
            ids_view(added@) == g.subrange(0, i as int).filter(pred),
        decreases more.len() - i,
    {
        proof {
            reveal_with_fuel(Seq::filter, 1);
            assert(g.subrange(0, i + 1).drop_last() =~= g.subrange(0, i as int));
        }
        if !free_has_name(free, more[i].name) {
            let c = more[i].copy();
            added.push(c);
            assert(ids_view(added@) =~= g.subrange(0, i as int).filter(pred).push(g[i as int]));
        }
        i = i + 1;
    }
    assert(g.subrange(0, more.len() as int) =~= g);
    free.append(&mut added);
    assert(ids_view(free@) =~= f + g.filter(pred));
}

/// The entries of `free` whose name is not in `names`.
fn remove_names_from(free: &Vec<Id>, names: &Vec<Name>) -> (r: Vec<Id>)
    ensures
        ids_view(r@) == remove_names(ids_view(free@), names@),
{
    let ghost f = ids_view(free@);
    let ghost pred = |v: IdView| !names@.contains(v.name);
    let mut kept: Vec<Id> = Vec::new();
    let mut i: usize = 0;
    while i < free.len()
        invariant
            i <= free.len(),
            f == ids_view(free@),
            pred == (|v: IdView| !names@.contains(v.name)),
            ids_view(kept@) == f.subrange(0, i as int).filter(pred),
        decreases free.len() - i,
    {
        proof {
            reveal_with_fuel(Seq::filter, 1);
            assert(f.subrange(0, i + 1).drop_last() =~= f.subrange(0, i as int));
        }
        if !contains_name(names, free[i].name) {
            let c = free[i].copy();
            kept.push(c);
            assert(ids_view(kept@) =~= f.subrange(0, i as int).filter(pred).push(f[i as int]));
        }
        i = i + 1;
    }
    assert(f.subrange(0, free.len() as int) =~= f);
    kept
}

/// Rewrites the right-hand side `e`, of type `typ`, so that it takes the
/// variables `free` as explicit leading parameters of a fresh
/// supercombinator, applied at once to those same variables.
fn abstract_(supply: &mut NameSupply, free: &Vec<Id>, e: Expr<Id>, typ: &Type) -> (r: Expr<Id>)
    ensures
        r@ == abstracted(e@, ids_view(free@), *typ, old(supply).next),
        final(supply).next == uid_after(ids_view(free@), old(supply).next),
{
    let ghost fv = ids_view(free@);
    if free.len() == 0 {
        return e;
    }
    let ghost e0 = e@;
    let mut rhs = e;
    let mut t = typ.copy();
    let mut i: usize = free.len();
    assert(fv.subrange(0, i as int) =~= fv);
    while i > 0
        invariant
            i <= free.len(),
            fv == ids_view(free@),
            lambdas(fv.subrange(0, i as int), rhs@) == lambdas(fv, e0),
            curried_type(fv.subrange(0, i as int), t) == curried_type(fv, *typ),
        decreases i,
    {
        assert(fv.subrange(0, i as int).drop_last() =~= fv.subrange(0, i - 1));
        i = i - 1;
        let v = free[i].copy();
        t = function_type_(free[i].typ.copy(), t);
        rhs = Expr::Lambda(v, Box::new(rhs));
    }
    assert(fv.subrange(0, 0) =~= Seq::<IdView>::empty());
    let name = supply.from_symbol(SUPERCOMBINATOR_SYMBOL);
    let id = Id::new(name, t, Vec::new());
    let ghost sc = supercombinator_id(fv, *typ, old(supply).next);
    assert(id@ == sc);
    let head_id = id.copy();
    let bind = Binding { name: id, expression: rhs };
    let head_expr = Expr::Identifier(head_id);
    assert(head_expr@ == Term::Identifier(sc));
    let mut out = Expr::Let(vec![bind], Box::new(head_expr));
    let ghost head = Term::Let(
        seq![BindingTerm { name: sc, expression: lambdas(fv, e0) }],
        Box::new(Term::Identifier(sc)),
    );
    proof {
        assert(lambdas(Seq::<IdView>::empty(), rhs@) == rhs@);
        if let Term::Let(bs, body) = out@ {
            assert(bs =~= seq![BindingTerm { name: sc, expression: lambdas(fv, e0) }]);
        }
    }
    assert(out@ == head);
    let mut j: usize = 0;
    while j < free.len()
        invariant
            j <= free.len(),
            fv == ids_view(free@),
            out@ == applications(head, fv.subrange(0, j as int)),
        decreases free.len() - j,
    {
        assert(fv.subrange(0, j + 1).drop_last() =~= fv.subrange(0, j as int));
        let v = free[j].copy();
        let ghost prev = out@;
        let arg = Expr::Identifier(v);
        assert(arg@ == Term::Identifier(fv[j as int]));
        out = Expr::Apply(Box::new(out), Box::new(arg));
        assert(out@ == Term::Apply(Box::new(prev), Box::new(Term::Identifier(fv[j as int]))));
        j = j + 1;
    }
    assert(fv.subrange(0, free.len() as int) =~= fv);
    out
}

fn binding_names_of(bs: &Vec<Binding<Id>>) -> (r: Vec<Name>)
    ensures
        r@ == binding_names(bindings_view(bs@)),
{
    let mut r: Vec<Name> = Vec::new();
    let mut i: usize = 0;
    while i < bs.len()
        invariant
            i <= bs.len(),
            r@ == binding_names(bindings_view(bs@)).subrange(0, i as int),
        decreases bs.len() - i,
    {
        r.push(bs[i].name.name);
        i = i + 1;
        assert(r@ =~= binding_names(bindings_view(bs@)).subrange(0, i as int));
    }
    assert(r@ =~= binding_names(bindings_view(bs@)));
    r
}

fn pattern_names_of(p: &Pattern<Id>) -> (r: Vec<Name>)
    ensures
        r@ == pattern_names(p@),
{
    let mut r: Vec<Name> = Vec::new();
    match p {
        Pattern::Identifier(i) => {
            r.push(i.name);
            assert(r@ =~= pattern_names(p@));
        },
        Pattern::Constructor(_, args) => {
            let ghost all = pattern_names(p@);
            let mut i: usize = 0;
            while i < args.len()
                invariant
                    i <= args.len(),
                    all == args@.map_values(|a: Id| a@).map_values(|a: IdView| a.name),
                    r@ == all.subrange(0, i as int),
                decreases args.len() - i,
            {
                r.push(args[i].name);
                i = i + 1;
                assert(r@ =~= all.subrange(0, i as int));
            }
            assert(r@ =~= all);
        },
        _ => {
            assert(r@ =~= pattern_names(p@));
        },
    }
    r
}

/// Pushes `names` onto the scope.
fn enter_scope(scope: &mut Vec<Name>, names: &Vec<Name>)
    ensures
        final(scope)@ == old(scope)@ + names@,
{
    let mut i: usize = 0;
    while i < names.len()
        invariant
            i <= names.len(),
            scope@ == old(scope)@ + names@.subrange(0, i as int),
        decreases names.len() - i,
    {
        scope.push(names[i]);
        i = i + 1;
        assert(scope@ =~= old(scope)@ + names@.subrange(0, i as int));
    }
    assert(names@.subrange(0, names.len() as int) =~= names@);
}

/// Walks `e`, whose enclosing local binders are `scope`: rewrites every
/// binding of every nested `let` over the variables it captures, and returns
/// the rewritten expression with its free local variables.
fn free_variables(supply: &mut NameSupply, scope: &mut Vec<Name>, e: Expr<Id>) -> (r: (Expr<Id>, Vec<Id>))
    ensures
        final(scope)@ == old(scope)@,
        (r.0@, ids_view(r.1@), final(supply).next) == abstract_term(e@, old(scope)@, old(supply).next),
    decreases e, 0nat,
{
    let ghost te = e@;
    match e {
        Expr::Identifier(i) => {
            let mut free: Vec<Id> = Vec::new();
            if contains_name(scope, i.name) {
                free.push(i.copy());
                assert(ids_view(free@) =~= seq![i@]);
            } else {
                assert(ids_view(free@) =~= Seq::<IdView>::empty());
            }
            (Expr::Identifier(i), free)
        },
        Expr::Literal(l) => {
            let free: Vec<Id> = Vec::new();
            assert(ids_view(free@) =~= Seq::<IdView>::empty());
            (Expr::Literal(l), free)
        },
        Expr::Apply(f, a) => {
            let (f2, mut ff) = free_variables(supply, scope, *f);
            let (a2, fa) = free_variables(supply, scope, *a);
            union_into(&mut ff, &fa);
            (Expr::Apply(Box::new(f2), Box::new(a2)), ff)
        },
        Expr::Lambda(v, b) => {
            let vname = v.name;
            scope.push(vname);
            let (b2, fb) = free_variables(supply, scope, *b);
            scope.pop();
            assert(scope@ =~= old(scope)@);
            let names = vec![vname];
            assert(names@ =~= seq![vname]);
            let fb2 = remove_names_from(&fb, &names);
            (Expr::Lambda(v, Box::new(b2)), fb2)
        },
        Expr::Let(bs, body) => {
            let ghost tbs = bindings_view(bs@);
            proof {
                if let Term::Let(s, _) = te {
                    assert(s =~= tbs);
                }
            }
            let names = binding_names_of(&bs);
            let depth = scope.len();
            enter_scope(scope, &names);
            let ghost inner = scope@;
            let (bs2, mut fbs) = free_variables_bindings(supply, scope, bs);
            let (body2, fbody) = free_variables(supply, scope, *body);
            scope.truncate(depth);
            assert(scope@ =~= old(scope)@);
            union_into(&mut fbs, &fbody);
            let free = remove_names_from(&fbs, &names);
            let ghost tbs2 = bindings_view(bs2@);
            let r = Expr::Let(bs2, Box::new(body2));
            proof {
                if let Term::Let(s, _) = r@ {
                    assert(s =~= tbs2);
                }
            }
            (r, free)
        },
        Expr::Case(scrutinee, alts) => {
            let ghost talts = alts_view(alts@);
            proof {
                if let Term::Case(_, s) = te {
                    assert(s =~= talts);
                }
            }
            let (s2, mut fs) = free_variables(supply, scope, *scrutinee);
            let (alts2, falts) = free_variables_alts(supply, scope, alts);
            union_into(&mut fs, &falts);
            let ghost talts2 = alts_view(alts2@);
            let r = Expr::Case(Box::new(s2), alts2);
            proof {
                if let Term::Case(_, s) = r@ {
                    assert(s =~= talts2);
                }
            }
            (r, fs)
        },
    }
}

/// Abstracts each binding of a `let` group whose names are already in
/// `scope`, in order.
fn free_variables_bindings(supply: &mut NameSupply, scope: &mut Vec<Name>, bs: Vec<Binding<Id>>) -> (r: (Vec<Binding<Id>>, Vec<Id>))
    ensures
        final(scope)@ == old(scope)@,
        (bindings_view(r.0@), ids_view(r.1@), final(supply).next)
            == abstract_bindings(bindings_view(bs@), old(scope)@, old(supply).next, bs.len() as int),
    decreases bs, 0nat,
{
    let ghost orig = bs;
    let ghost tbs = bindings_view(bs@);
    let ghost uid0 = supply.next;
    let n = bs.len();
    let mut rest = bs;
    let mut out: Vec<Binding<Id>> = Vec::new();
    let mut free: Vec<Id> = Vec::new();
    let mut k: usize = 0;
    assert(bindings_view(out@) =~= Seq::<BindingTerm<IdView>>::empty());
    assert(ids_view(free@) =~= Seq::<IdView>::empty());
    while k < n
        invariant
            n == orig.len(),
            orig == bs,
            tbs == bindings_view(orig@),
            k <= n,
            rest@ == orig@.subrange(k as int, n as int),
            scope@ == old(scope)@,
            (bindings_view(out@), ids_view(free@), supply.next)
                == abstract_bindings(tbs, scope@, uid0, k as int),
        decreases n - k,
    {
        let b = rest.remove(0);
        assert(b == orig@[k as int]);
        assert(decreases_to!(orig => orig@[k as int].expression));
        let Binding { name, expression } = b;
        let (e2, fe) = free_variables(supply, scope, expression);
        let e3 = abstract_(supply, &fe, e2, &name.typ);
        union_into(&mut free, &fe);
        let ghost prev = bindings_view(out@);
        out.push(Binding { name, expression: e3 });
        assert(bindings_view(out@) =~= prev.push(BindingTerm { name: name@, expression: e3@ }));
        assert(rest@ =~= orig@.subrange(k + 1, n as int));
        k = k + 1;
    }
    (out, free)
}

/// Abstracts each alternative of a `case`, in order.
fn free_variables_alts(supply: &mut NameSupply, scope: &mut Vec<Name>, alts: Vec<Alt<Id>>) -> (r: (Vec<Alt<Id>>, Vec<Id>))
    ensures
        final(scope)@ == old(scope)@,
        (alts_view(r.0@), ids_view(r.1@), final(supply).next)
            == abstract_alts(alts_view(alts@), old(scope)@, old(supply).next, alts.len() as int),
    decreases alts, 0nat,
{
    let ghost orig = alts;
    let ghost talts = alts_view(alts@);
    let ghost uid0 = supply.next;
    let n = alts.len();
    let mut rest = alts;
    let mut out: Vec<Alt<Id>> = Vec::new();
    let mut free: Vec<Id> = Vec::new();
    let mut k: usize = 0;
    assert(alts_view(out@) =~= Seq::<AltTerm<IdView>>::empty());
    assert(ids_view(free@) =~= Seq::<IdView>::empty());
    while k < n
        invariant
            n == orig.len(),
            orig == alts,
            talts == alts_view(orig@),
            k <= n,
            rest@ == orig@.subrange(k as int, n as int),
            scope@ == old(scope)@,
            (alts_view(out@), ids_view(free@), supply.next)
                == abstract_alts(talts, scope@, uid0, k as int),
        decreases n - k,
    {
        let a = rest.remove(0);
        assert(a == orig@[k as int]);
        assert(decreases_to!(orig => orig@[k as int].expression));
        let Alt { pattern, expression } = a;
        let names = pattern_names_of(&pattern);
        let depth = scope.len();
        enter_scope(scope, &names);
        let (e2, fe) = free_variables(supply, scope, expression);
        scope.truncate(depth);
        assert(scope@ =~= old(scope)@);
        let fe2 = remove_names_from(&fe, &names);
        union_into(&mut free, &fe2);
        let ghost prev = alts_view(out@);
        let ghost pv = pattern@;
        out.push(Alt { pattern, expression: e2 });
        assert(alts_view(out@) =~= prev.push(AltTerm { pattern: pv, expression: e2@ }));
        assert(rest@ =~= orig@.subrange(k + 1, n as int));
        k = k + 1;
    }
    (out, free)
}

/// Abstraction of the first `k` top-level bindings of a module: each
/// right-hand side is walked with an empty scope, and is itself left as it is.
pub open spec fn abstract_top_level(bs: Seq<BindingTerm<IdView>>, uid: u64, k: int) -> (Seq<BindingTerm<IdView>>, u64)
    decreases k,
{
    if k <= 0 || k > bs.len() {
        (seq![], uid)
    } else {
        let (prev, u1) = abstract_top_level(bs, uid, k - 1);
        let b = bs[k - 1];
        let (e2, _, u2) = abstract_term(b.expression, seq![], u1);
        (prev.push(BindingTerm { name: b.name, expression: e2 }), u2)
    }
}

/// The bindings of a module after free-variable abstraction, with fresh
/// names numbered from zero.
pub open spec fn abstract_bindings_of_module(bs: Seq<BindingTerm<IdView>>) -> Seq<BindingTerm<IdView>> {
    abstract_top_level(bs, 0, bs.len() as int).0
}

/// Takes a module and adds all variables which are captured into a local
/// binding to the arguments of a fresh supercombinator.
pub fn abstract_module(module: Module<Id>) -> (r: Module<Id>)
    ensures
        bindings_view(r.bindings@) == abstract_bindings_of_module(bindings_view(module.bindings@)),
{
    let ghost tbs = bindings_view(module.bindings@);
    let ghost orig = module.bindings;
    let mut supply = NameSupply::new();
    let mut scope: Vec<Name> = Vec::new();
    let mut rest = module.bindings;
    let n = rest.len();
    let mut out: Vec<Binding<Id>> = Vec::new();
    let mut k: usize = 0;
    assert(bindings_view(out@) =~= Seq::<BindingTerm<IdView>>::empty());
    while k < n
        invariant
            n == orig.len(),
            tbs == bindings_view(orig@),
            k <= n,
            rest@ == orig@.subrange(k as int, n as int),
            scope@ == Seq::<Name>::empty(),
            (bindings_view(out@), supply.next) == abstract_top_level(tbs, 0, k as int),
        decreases n - k,
    {
        let b = rest.remove(0);
        assert(b == orig@[k as int]);
        let Binding { name, expression } = b;
        let (e2, _free) = free_variables(&mut supply, &mut scope, expression);
        let ghost prev = bindings_view(out@);
        out.push(Binding { name, expression: e2 });
        assert(bindings_view(out@) =~= prev.push(BindingTerm { name: name@, expression: e2@ }));
        assert(rest@ =~= orig@.subrange(k + 1, n as int));
        k = k + 1;
    }
    Module { bindings: out }
}

} // verus!
