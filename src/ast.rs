//! The typed core expression language that the lifter works on, together
//! with a purely mathematical model of it (`Term`) in which lists are `Seq`s.
use vstd::prelude::*;

verus! {

/// A globally unique identifier: an interned symbol and a renamer-assigned
/// unique number.
#[derive(Clone, Copy, PartialEq, Eq, Structural, Debug, Hash)]
pub struct Name {
    pub name: u64,
    pub uid: u64,
}

/// Types of the core language. A function type `a -> r` is `Function(a, r)`.
#[derive(Debug, PartialEq, Eq)]
pub enum Type {
    Variable(u64),
    Constructor(u64),
    Application(Box<Type>, Box<Type>),
    Function(Box<Type>, Box<Type>),
}

impl Type {
    /// A structural copy of the type.
    pub fn copy(&self) -> (r: Type)
        ensures
            r == *self,
        decreases self,
    {
        match self {
            Type::Variable(v) => Type::Variable(*v),
            Type::Constructor(c) => Type::Constructor(*c),
            Type::Application(f, a) => Type::Application(Box::new(f.copy()), Box::new(a.copy())),
            Type::Function(a, r) => Type::Function(Box::new(a.copy()), Box::new(r.copy())),
        }
    }
}

/// `arg -> ret`.
pub open spec fn spec_function_type(arg: Type, ret: Type) -> Type {
    Type::Function(Box::new(arg), Box::new(ret))
}

/// Builds the function type `arg -> ret`.
pub fn function_type_(arg: Type, ret: Type) -> (r: Type)
    ensures
        r == spec_function_type(arg, ret),
{
    Type::Function(Box::new(arg), Box::new(ret))
}

/// A class constraint on a type variable.
#[derive(Clone, Copy, PartialEq, Eq, Structural, Debug)]
pub struct Constraint {
    pub class: Name,
    pub variable: u64,
}

/// A typed identifier.
#[derive(Debug, PartialEq)]
pub struct Id {
    pub name: Name,
    pub typ: Type,
    pub constraints: Vec<Constraint>,
}

/// The mathematical value of an `Id`.
pub struct IdView {
    pub name: Name,
    pub typ: Type,
    pub constraints: Seq<Constraint>,
}

impl View for Id {
    type V = IdView;

    open spec fn view(&self) -> IdView {
        IdView { name: self.name, typ: self.typ, constraints: self.constraints@ }
    }
}

impl Id {
    pub fn new(name: Name, typ: Type, constraints: Vec<Constraint>) -> (r: Id)
        ensures
            r.name == name,
            r.typ == typ,
            r.constraints@ == constraints@,
    {
        Id { name, typ, constraints }
    }

    pub fn get_type(&self) -> (r: &Type)
        ensures
            *r == self.typ,
    {
        &self.typ
    }

    /// A copy of the identifier with the same name, type and constraints.
    pub fn copy(&self) -> (r: Id)
        ensures
            r@ == self@,
    {
        let mut cs: Vec<Constraint> = Vec::new();
        let mut i: usize = 0;
        while i < self.constraints.len()
            invariant
                i <= self.constraints.len(),
                cs@ == self.constraints@.subrange(0, i as int),
            decreases self.constraints.len() - i,
        {
            cs.push(self.constraints[i]);
            i = i + 1;
        }
        assert(cs@ == self.constraints@);
        Id { name: self.name, typ: self.typ.copy(), constraints: cs }
    }
}

/// The value of a literal. A fractional literal is held as the bit pattern
/// of its IEEE-754 double.
#[derive(Clone, Copy, PartialEq, Eq, Structural, Debug)]
pub enum Literal {
    Integral(i64),
    Fractional(u64),
    String(u64),
    Char(char),
}

#[derive(Debug, PartialEq)]
pub struct LiteralData {
    pub typ: Type,
    pub value: Literal,
}

#[derive(Debug, PartialEq)]
pub enum Pattern<T> {
    Literal(LiteralData),
    Identifier(T),
    Number(i64),
    Constructor(T, Vec<T>),
    WildCard,
}

#[derive(Debug, PartialEq)]
pub struct Alt<T> {
    pub pattern: Pattern<T>,
    pub expression: Expr<T>,
}

#[derive(Debug, PartialEq)]
pub struct Binding<T> {
    pub name: T,
    pub expression: Expr<T>,
}

#[derive(Debug, PartialEq)]
pub enum Expr<T> {
    Identifier(T),
    Apply(Box<Expr<T>>, Box<Expr<T>>),
    Literal(LiteralData),
    Lambda(T, Box<Expr<T>>),
    Let(Vec<Binding<T>>, Box<Expr<T>>),
    Case(Box<Expr<T>>, Vec<Alt<T>>),
}

/// A module: its list of top-level bindings.
#[derive(Debug, PartialEq)]
pub struct Module<T> {
    pub bindings: Vec<Binding<T>>,
}

/// The mathematical model of an expression.
pub enum Term<V> {
    Identifier(V),
    Apply(Box<Term<V>>, Box<Term<V>>),
    Literal(LiteralData),
    Lambda(V, Box<Term<V>>),
    Let(Seq<BindingTerm<V>>, Box<Term<V>>),
    Case(Box<Term<V>>, Seq<AltTerm<V>>),
}

pub struct BindingTerm<V> {
    pub name: V,
    pub expression: Term<V>,
}

pub struct AltTerm<V> {
    pub pattern: PatternTerm<V>,
    pub expression: Term<V>,
}

pub enum PatternTerm<V> {
    Literal(LiteralData),
    Identifier(V),
    Number(i64),
    Constructor(V, Seq<V>),
    WildCard,
}

impl<T: View> View for Pattern<T> {
    type V = PatternTerm<T::V>;

    open spec fn view(&self) -> PatternTerm<T::V> {
        match self {
            Pattern::Literal(l) => PatternTerm::Literal(*l),
            Pattern::Identifier(i) => PatternTerm::Identifier(i@),
            Pattern::Number(n) => PatternTerm::Number(*n),
            Pattern::Constructor(c, args) => PatternTerm::Constructor(
                c@,
                args@.map_values(|a: T| a@),
            ),
            Pattern::WildCard => PatternTerm::WildCard,
        }
    }
}

/// The model of an expression, with each identifier replaced by its view.
pub open spec fn term_of<T: View>(e: &Expr<T>) -> Term<T::V>
    decreases e,
{
    match e {
        Expr::Identifier(i) => Term::Identifier(i@),
        Expr::Apply(f, a) => Term::Apply(Box::new(term_of(&**f)), Box::new(term_of(&**a))),
        Expr::Literal(l) => Term::Literal(*l),
        Expr::Lambda(v, b) => Term::Lambda(v@, Box::new(term_of(&**b))),
        Expr::Let(bs, body) => Term::Let(
            Seq::new(
                bs.len() as nat,
                |i: int|
                    BindingTerm {
                        name: bs@[i].name@,
                        expression: if 0 <= i < bs.len() {
                            term_of(&bs@[i].expression)
                        } else {
                            Term::Literal(LiteralData { typ: Type::Variable(0), value: Literal::Integral(0) })
                        },
                    },
            ),
            Box::new(term_of(&**body)),
        ),
        Expr::Case(s, alts) => Term::Case(
            Box::new(term_of(&**s)),
            Seq::new(
                alts.len() as nat,
                |i: int|
                    AltTerm {
                        pattern: alts@[i].pattern@,
                        expression: if 0 <= i < alts.len() {
                            term_of(&alts@[i].expression)
                        } else {
                            Term::Literal(LiteralData { typ: Type::Variable(0), value: Literal::Integral(0) })
                        },
                    },
            ),
        ),
    }
}

/// The models of a list of bindings.
pub open spec fn bindings_view<T: View>(s: Seq<Binding<T>>) -> Seq<BindingTerm<T::V>> {
    Seq::new(s.len(), |i: int| BindingTerm { name: s[i].name@, expression: s[i].expression@ })
}

/// The models of a list of alternatives.
pub open spec fn alts_view<T: View>(s: Seq<Alt<T>>) -> Seq<AltTerm<T::V>> {
    Seq::new(s.len(), |i: int| AltTerm { pattern: s[i].pattern@, expression: s[i].expression@ })
}

impl<T: View> View for Expr<T> {
    type V = Term<T::V>;

    open spec fn view(&self) -> Term<T::V> {
        term_of(self)
    }
}

} // verus!
