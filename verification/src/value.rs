//! Embedded values and the expressions that stand for them.

use vstd::prelude::*;
use crate::render::{bool_text, Render, Write, WriteError};
use crate::text::{same_text, signed_decimal, write_signed_decimal};

verus! {

/// A value that an embedded expression yields.
#[derive(Debug)]
pub enum Value {
    /// The empty value, which renders nothing.
    Unit,
    /// A truth value.
    Bool(bool),
    /// An integer.
    Int(i128),
    /// A text, rendered as it is.
    Text(String),
}

/// The mathematical content of a [`Value`].
pub enum ValueView {
    Unit,
    Bool(bool),
    Int(i128),
    Text(Seq<char>),
}

impl View for Value {
    type V = ValueView;

    open spec fn view(&self) -> ValueView {
        match self {
            Value::Unit => ValueView::Unit,
            Value::Bool(b) => ValueView::Bool(*b),
            Value::Int(n) => ValueView::Int(*n),
            Value::Text(s) => ValueView::Text(s@),
        }
    }
}

/// The text of a value: nothing for the empty value, `true` or `false`,
/// decimal notation, or the text itself.
pub open spec fn value_text(v: ValueView) -> Seq<char> {
    match v {
        ValueView::Unit => Seq::empty(),
        ValueView::Bool(b) => bool_text(b),
        ValueView::Int(n) => signed_decimal(n as int),
        ValueView::Text(s) => s,
    }
}

impl Clone for Value {
    fn clone(&self) -> (r: Self)
        ensures
            r@ == self@,
    {
        match self {
            Value::Unit => Value::Unit,
            Value::Bool(b) => Value::Bool(*b),
            Value::Int(n) => Value::Int(*n),
            Value::Text(s) => Value::Text(s.clone()),
        }
    }
}

impl Value {
    /// The text of the value as a string.
    pub fn to_text(&self) -> (r: String)
        ensures
            r@ == value_text(self@),
    {
        match self {
            Value::Unit => String::new(),
            Value::Bool(b) => b.html(),
            Value::Int(n) => {
                let mut out = String::new();
                write_signed_decimal(*n, &mut out);
                assert(out@ =~= signed_decimal(*n as int));
                out
            },
            Value::Text(s) => s.clone(),
        }
    }
}

impl Render for Value {
    open spec fn rendered(&self) -> Seq<char> {
        value_text(self@)
    }

    fn render<W: Write>(&self, w: &mut W) -> (r: Result<(), WriteError>) {
        let text = self.to_text();
        w.write_str(text.as_str())
    }
}

/// An embedded expression: a value written out, or the name of a binding
/// that holds one.
#[derive(Debug)]
pub enum Expression {
    /// A value written in place.
    Literal(Value),
    /// A reference to the binding of that name in the enclosing scope.
    Binding(String),
}

/// The mathematical content of an [`Expression`].
pub enum ExpressionView {
    Literal(ValueView),
    Binding(Seq<char>),
}

impl View for Expression {
    type V = ExpressionView;

    open spec fn view(&self) -> ExpressionView {
        match self {
            Expression::Literal(v) => ExpressionView::Literal(v@),
            Expression::Binding(n) => ExpressionView::Binding(n@),
        }
    }
}

impl Clone for Expression {
    fn clone(&self) -> (r: Self)
        ensures
            r@ == self@,
    {
        match self {
            Expression::Literal(v) => Expression::Literal(v.clone()),
            Expression::Binding(n) => Expression::Binding(n.clone()),
        }
    }
}

/// An expression block: the statements between a pair of braces.
#[derive(Debug)]
pub struct Block {
    pub stmts: Vec<Expression>,
}

/// The statements of a sequence of expressions, as mathematical values.
pub open spec fn statements(s: Seq<Expression>) -> Seq<ExpressionView> {
    Seq::new(s.len(), |i: int| s[i]@)
}

impl View for Block {
    type V = Seq<ExpressionView>;

    open spec fn view(&self) -> Seq<ExpressionView> {
        statements(self.stmts@)
    }
}

impl Clone for Block {
    fn clone(&self) -> (r: Self)
        ensures
            r@ == self@,
    {
        let mut stmts: Vec<Expression> = Vec::new();
        let mut i: usize = 0;
        while i < self.stmts.len()
            invariant
                i <= self.stmts.len(),
                stmts.len() == i,
                forall|j: int| 0 <= j < i ==> stmts[j]@ == self.stmts[j]@,
            decreases self.stmts.len() - i,
        {
            stmts.push(self.stmts[i].clone());
            i += 1;
        }
        let r = Block { stmts };
        assert(r@ =~= self@);
        r
    }
}

/// The expression that a block stands for where it is a child: its one
/// statement, or else the value of its last statement, or nothing where it
/// has none.
pub open spec fn block_value(b: Seq<ExpressionView>) -> ExpressionView {
    if b.len() == 0 {
        ExpressionView::Literal(ValueView::Unit)
    } else {
        b.last()
    }
}

/// The bindings that expressions refer to by name. A later binding of a
/// name shadows an earlier one.
#[derive(Debug)]
pub struct Scope {
    pub bindings: Vec<(String, Value)>,
}

/// The bindings of a scope as mathematical values, oldest first.
pub open spec fn bindings(s: Seq<(String, Value)>) -> Seq<(Seq<char>, ValueView)> {
    Seq::new(s.len(), |i: int| (s[i].0@, s[i].1@))
}

impl View for Scope {
    type V = Seq<(Seq<char>, ValueView)>;

    open spec fn view(&self) -> Seq<(Seq<char>, ValueView)> {
        bindings(self.bindings@)
    }
}

/// The value that `name` is bound to: that of its latest binding.
pub open spec fn bound(scope: Seq<(Seq<char>, ValueView)>, name: Seq<char>) -> Option<ValueView>
    decreases scope.len(),
{
    if scope.len() == 0 {
        None
    } else if scope.last().0 == name {
        Some(scope.last().1)
    } else {
        bound(scope.drop_last(), name)
    }
}

/// The value of an expression in a scope, if the scope binds what it
/// refers to.
pub open spec fn evaluated(e: ExpressionView, scope: Seq<(Seq<char>, ValueView)>) -> Option<
    ValueView,
> {
    match e {
        ExpressionView::Literal(v) => Some(v),
        ExpressionView::Binding(n) => bound(scope, n),
    }
}

impl Scope {
    /// A scope without bindings.
    pub fn new() -> (r: Scope)
        ensures
            r@ == Seq::<(Seq<char>, ValueView)>::empty(),
    {
        let r = Scope { bindings: Vec::new() };
        assert(r@ =~= Seq::<(Seq<char>, ValueView)>::empty());
        r
    }

    /// Binds `name` to `value`, shadowing any earlier binding of the name.
    pub fn bind(&mut self, name: String, value: Value)
        ensures
            final(self)@ == old(self)@.push((name@, value@)),
    {
        self.bindings.push((name, value));
        assert(self@ =~= old(self)@.push((name@, value@)));
    }

    /// The value that `name` is bound to, if any.
    pub fn lookup(&self, name: &str) -> (r: Option<Value>)
        ensures
            match r {
                Some(v) => bound(self@, name@) == Some(v@),
                None => bound(self@, name@) is None,
            },
    {
        let mut i: usize = self.bindings.len();
        assert(self@.take(i as int) =~= self@);
        while i > 0
            invariant
                i <= self.bindings.len(),
                bound(self@, name@) == bound(self@.take(i as int), name@),
            decreases i,
        {
            i -= 1;
            let ghost prefix = self@.take(i + 1);
            assert(prefix.last() == self@[i as int]);
            assert(prefix.drop_last() =~= self@.take(i as int));
            if same_text(self.bindings[i].0.as_str(), name) {
                return Some(self.bindings[i].1.clone());
            }
        }
        None
    }
}

impl Expression {
    /// The value of the expression in `scope`; `None` where it names a
    /// binding that the scope lacks.
    pub fn evaluate(&self, scope: &Scope) -> (r: Option<Value>)
        ensures
            match r {
                Some(v) => evaluated(self@, scope@) == Some(v@),
                None => evaluated(self@, scope@) is None,
            },
    {
        match self {
            Expression::Literal(v) => Some(v.clone()),
            Expression::Binding(n) => scope.lookup(n.as_str()),
        }
    }
}

impl Block {
    /// The expression that the block stands for where it is a child.
    pub fn value(&self) -> (r: Expression)
        ensures
            r@ == block_value(self@),
    {
        let n = self.stmts.len();
        if n == 0 {
            Expression::Literal(Value::Unit)
        } else {
            self.stmts[n - 1].clone()
        }
    }
}

} // verus!
