use vstd::prelude::*;
use crate::numerical::{
    fold_spec, negation, Binary64, Complex, Fold, NumOp, NumericError, Numerical,
};
use crate::operator::Operator;

verus! {

/// An interned name token.
#[derive(Clone, Copy, Debug, PartialEq)]
pub struct Symbol(&'static str);

impl View for Symbol {
    type V = Seq<char>;

    closed spec fn view(&self) -> Seq<char> {
        self.0@
    }
}

impl Symbol {
    pub fn new(name: &'static str) -> (r: Symbol)
        ensures
            r@ == name@,
    {
        Symbol(name)
    }

    pub fn name(&self) -> (r: &'static str)
        ensures
            r@ == self@,
    {
        self.0
    }
}

/// Mathematical model of an expression.
pub enum Term {
    Symbol(Seq<char>),
    Value(Numerical),
    Node(Operator, Seq<Term>),
}

/// An expression tree: a symbol, a numeric literal, or an operator node over
/// an ordered sequence of children. Trees are built bottom-up; the
/// construction methods consume their operands.
#[derive(Debug, PartialEq)]
pub enum Expression {
    Symbol(&'static str),
    Value(Numerical),
    Expr { head: Operator, args: Vec<Box<Expression>> },
}

impl Expression {
    pub open spec fn view(&self) -> Term
        decreases self,
    {
        match self {
            Expression::Symbol(s) => Term::Symbol(s@),
            Expression::Value(n) => Term::Value(*n),
            Expression::Expr { head, args } => Term::Node(*head, views_of(args@)),
        }
    }
}

/// The models of a sequence of expressions, in order.
pub open spec fn views_of(s: Seq<Box<Expression>>) -> Seq<Term>
    decreases s,
{
    if s.len() == 0 {
        Seq::empty()
    } else {
        views_of(s.subrange(0, s.len() - 1)).push(s[s.len() - 1].view())
    }
}

pub proof fn lemma_views_of(s: Seq<Box<Expression>>)
    ensures
        views_of(s).len() == s.len(),
        forall|i: int| 0 <= i < s.len() ==> #[trigger] views_of(s)[i] == s[i].view(),
    decreases s.len(),
{
    if s.len() > 0 {
        lemma_views_of(s.subrange(0, s.len() - 1));
    }
}

/// Well-formed terms: every node but a call has at least two children.
pub open spec fn wf(t: Term) -> bool
    decreases t,
{
    match t {
        Term::Node(op, xs) => {
            &&& (op != Operator::CALL ==> xs.len() >= 2)
            &&& forall|i: int| 0 <= i < xs.len() ==> wf(#[trigger] xs[i])
        },
        _ => true,
    }
}

/// Whether `t` is a node headed by `op`.
pub open spec fn headed_by(t: Term, op: Operator) -> bool {
    t matches Term::Node(h, _) && h == op
}

/// The operands that `t` contributes to an `op` node: its children where it is
/// itself an `op` node, else `t` alone.
pub open spec fn operands(t: Term, op: Operator) -> Seq<Term> {
    match t {
        Term::Node(h, xs) => if h == op {
            xs
        } else {
            seq![t]
        },
        _ => seq![t],
    }
}

/// `a op b` for an associative operator, without folding: the children of an
/// operand that is already an `op` node are spliced in, in reading order.
pub open spec fn associated(op: Operator, a: Term, b: Term) -> Term {
    if headed_by(a, op) && headed_by(b, op) {
        Term::Node(op, a->Node_1 + b->Node_1)
    } else if headed_by(a, op) {
        Term::Node(op, a->Node_1.push(b))
    } else if headed_by(b, op) {
        Term::Node(op, seq![a] + b->Node_1)
    } else {
        Term::Node(op, seq![a, b])
    }
}

/// What building an expression comes to.
#[derive(Debug, PartialEq)]
pub enum Built {
    /// The finished expression.
    Done(Expression),
    /// An integer fold that has no 64-bit result.
    Failed(NumericError),
    /// A fold that needs binary64 arithmetic, which is left to the caller.
    Pending(Pending),
}

/// A construction that waits for one fold in binary64 arithmetic: `op`
/// applied to `lhs` and `rhs`.
#[derive(Debug, PartialEq)]
pub struct Pending {
    pub op: NumOp,
    pub lhs: Numerical,
    pub rhs: Numerical,
    /// Where the folded literal goes: `None` where it is the whole result;
    /// `Some(a)` where the result is the product of `a` and the literal, by the
    /// rule of multiplication (a product `a` is flattened).
    pub factor: Option<Box<Expression>>,
}

/// Model of a [`Built`].
pub enum Outcome {
    Done(Term),
    Failed(NumericError),
    Pending(NumOp, Numerical, Numerical, Option<Term>),
}

impl Built {
    pub open spec fn view(&self) -> Outcome {
        match self {
            Built::Done(e) => Outcome::Done(e.view()),
            Built::Failed(err) => Outcome::Failed(*err),
            Built::Pending(p) => Outcome::Pending(p.op, p.lhs, p.rhs, p.factor_view()),
        }
    }
}

impl Pending {
    pub open spec fn factor_view(&self) -> Option<Term> {
        match self.factor {
            Some(a) => Some(a.view()),
            None => None,
        }
    }
}

/// The outcome of folding two literals.
pub open spec fn folded(op: NumOp, x: Numerical, y: Numerical) -> Outcome {
    match fold_spec(op, x, y) {
        Fold::Value(n) => Outcome::Done(Term::Value(n)),
        Fold::Error(e) => Outcome::Failed(e),
        Fold::Binary64 => Outcome::Pending(op, x, y, None),
    }
}

/// `a + b`: literals fold, anything else is flattened into a sum.
pub open spec fn sum(a: Term, b: Term) -> Outcome {
    match (a, b) {
        (Term::Value(x), Term::Value(y)) => folded(NumOp::Add, x, y),
        _ => Outcome::Done(associated(Operator::ADD, a, b)),
    }
}

/// `a * b`: literals fold, anything else is flattened into a product.
pub open spec fn product(a: Term, b: Term) -> Outcome {
    match (a, b) {
        (Term::Value(x), Term::Value(y)) => folded(NumOp::Mul, x, y),
        _ => Outcome::Done(associated(Operator::MUL, a, b)),
    }
}

/// `-a`: a literal changes sign; anything else is the product of the integer
/// -1 and `a`, by the rule of multiplication (a product `a` is flattened).
pub open spec fn negated_term(a: Term) -> Outcome {
    match a {
        Term::Value(x) => match negation(x) {
            Ok(n) => Outcome::Done(Term::Value(n)),
            Err(e) => Outcome::Failed(e),
        },
        _ => Outcome::Done(associated(Operator::MUL, Term::Value(Numerical::Int(-1i64)), a)),
    }
}

/// `a - b`: literals fold; anything else is the sum of `a` and `-b`, by the
/// rule of addition (sums are flattened).
pub open spec fn difference(a: Term, b: Term) -> Outcome {
    match (a, b) {
        (Term::Value(x), Term::Value(y)) => folded(NumOp::Sub, x, y),
        _ => match negated_term(b) {
            Outcome::Done(nb) => sum(a, nb),
            other => other,
        },
    }
}

/// `a ^ b` without folding: an exponent is appended to a power on the left.
pub open spec fn chained(a: Term, b: Term) -> Term {
    if headed_by(a, Operator::POWER) {
        Term::Node(Operator::POWER, a->Node_1.push(b))
    } else {
        Term::Node(Operator::POWER, seq![a, b])
    }
}

/// `a ^ b`: literals fold, anything else chains.
pub open spec fn power(a: Term, b: Term) -> Outcome {
    match (a, b) {
        (Term::Value(x), Term::Value(y)) => folded(NumOp::Pow, x, y),
        _ => Outcome::Done(chained(a, b)),
    }
}

/// The exponent of a reciprocal: the integer -1. A literal divisor is raised
/// to it by the power of the numeric tower, so an integer divisor other than
/// 1 or -1 has the reciprocal 0 (integer powers are truncated), and the
/// integer 0 has none (`DivisionByZero`).
pub open spec fn reciprocal_exponent() -> Numerical {
    Numerical::Int(-1i64)
}

/// `a / b`: literals fold; anything else is the product of `a` and
/// `b ^ -1`, by the rules of powers and of multiplication (a product `a` is
/// flattened).
pub open spec fn quotient(a: Term, b: Term) -> Outcome {
    match (a, b) {
        (Term::Value(x), Term::Value(y)) => folded(NumOp::Div, x, y),
        _ => match power(b, Term::Value(reciprocal_exponent())) {
            Outcome::Done(r) => product(a, r),
            Outcome::Pending(op, x, y, _) => Outcome::Pending(op, x, y, Some(a)),
            other => other,
        },
    }
}

/// The expression that a pending construction stands for once its fold gave
/// `value`: the literal itself, or the product of the factor and the literal
/// (a product factor is flattened).
pub open spec fn completed(factor: Option<Term>, value: Numerical) -> Term {
    match factor {
        None => Term::Value(value),
        Some(a) => associated(Operator::MUL, a, Term::Value(value)),
    }
}

impl Expression {
    pub fn symbol(name: &'static str) -> (r: Expression)
        ensures
            r@ == Term::Symbol(name@),
    {
        Expression::Symbol(name)
    }

    pub fn integer(value: i64) -> (r: Expression)
        ensures
            r@ == Term::Value(Numerical::Int(value)),
    {
        Expression::Value(Numerical::integer(value))
    }

    pub fn float(value: Binary64) -> (r: Expression)
        ensures
            r@ == Term::Value(Numerical::Float(value)),
    {
        Expression::Value(Numerical::float(value))
    }

    pub fn complex(re: Binary64, im: Binary64) -> (r: Expression)
        ensures
            r@ == Term::Value(Numerical::Complex(Complex { re, im })),
    {
        Expression::Value(Numerical::complex(re, im))
    }

    /// A node with the two children `a` and `b`.
    fn node2(head: Operator, a: Expression, b: Expression) -> (r: Expression)
        ensures
            r@ == Term::Node(head, seq![a@, b@]),
    {
        let ghost (ta, tb) = (a@, b@);
        let mut args: Vec<Box<Expression>> = Vec::new();
        args.push(Box::new(a));
        args.push(Box::new(b));
        proof {
            lemma_views_of(args@);
            assert(views_of(args@) =~= seq![ta, tb]);
        }
        Expression::Expr { head, args }
    }

    /// Takes the children out of a node headed by `op`; hands any other
    /// expression back.
    fn into_operands(self, op: Operator) -> (r: Result<Vec<Box<Expression>>, Expression>)
        ensures
            match r {
                Ok(xs) => headed_by(self@, op) && self@ == Term::Node(op, views_of(xs@)),
                Err(e) => !headed_by(self@, op) && e@ == self@,
            },
    {
        match self {
            Expression::Expr { head, args } => {
                if head == op {
                    Ok(args)
                } else {
                    Err(Expression::Expr { head, args })
                }
            },
            other => Err(other),
        }
    }

    /// `lhs op rhs` for an associative `op`, flattening operand nodes that
    /// are already headed by `op`.
    fn associate(op: Operator, lhs: Expression, rhs: Expression) -> (r: Expression)
        ensures
            r@ == associated(op, lhs@, rhs@),
    {
        let ghost a = lhs@;
        let ghost b = rhs@;
        match (lhs.into_operands(op), rhs.into_operands(op)) {
            (Ok(mut xs), Ok(mut ys)) => {
                let ghost (xs0, ys0) = (xs@, ys@);
                xs.append(&mut ys);
                proof {
                    lemma_views_of(xs0);
                    lemma_views_of(ys0);
                    lemma_views_of(xs@);
                    assert(views_of(xs@) =~= views_of(xs0) + views_of(ys0));
                }
                Expression::Expr { head: op, args: xs }
            },
            (Ok(mut xs), Err(rhs)) => {
                let ghost xs0 = xs@;
                xs.push(Box::new(rhs));
                proof {
                    lemma_views_of(xs0);
                    lemma_views_of(xs@);
                    assert(views_of(xs@) =~= views_of(xs0).push(b));
                }
                Expression::Expr { head: op, args: xs }
            },
            (Err(lhs), Ok(mut ys)) => {
                let ghost ys0 = ys@;
                ys.insert(0, Box::new(lhs));
                proof {
                    lemma_views_of(ys0);
                    lemma_views_of(ys@);
                    assert(views_of(ys@) =~= seq![a] + views_of(ys0));
                }
                Expression::Expr { head: op, args: ys }
            },
            (Err(lhs), Err(rhs)) => Expression::node2(op, lhs, rhs),
        }
    }

    /// The sum of `self` and `rhs`.
    pub fn add(self, rhs: Expression) -> (r: Built)
        ensures
            r@ == sum(self@, rhs@),
    {
        match (self, rhs) {
            (Expression::Value(x), Expression::Value(y)) => Built::folding(NumOp::Add, x, y),
            (lhs, rhs) => Built::Done(Expression::associate(Operator::ADD, lhs, rhs)),
        }
    }

    /// The product of `self` and `rhs`.
    pub fn mul(self, rhs: Expression) -> (r: Built)
        ensures
            r@ == product(self@, rhs@),
    {
        match (self, rhs) {
            (Expression::Value(x), Expression::Value(y)) => Built::folding(NumOp::Mul, x, y),
            (lhs, rhs) => Built::Done(Expression::associate(Operator::MUL, lhs, rhs)),
        }
    }
}

impl Expression {
    /// The negation of `self`.
    pub fn neg(self) -> (r: Built)
        ensures
            r@ == negated_term(self@),
    {
        match self {
            Expression::Value(x) => match x.neg() {
                Ok(n) => Built::Done(Expression::Value(n)),
                Err(e) => Built::Failed(e),
            },
            other => Built::Done(
                Expression::associate(Operator::MUL, Expression::integer(-1), other),
            ),
        }
    }

    /// `self` minus `rhs`.
    pub fn sub(self, rhs: Expression) -> (r: Built)
        ensures
            r@ == difference(self@, rhs@),
    {
        match (self, rhs) {
            (Expression::Value(x), Expression::Value(y)) => Built::folding(NumOp::Sub, x, y),
            (lhs, rhs) => match rhs.neg() {
                Built::Done(negated) => lhs.add(negated),
                other => other,
            },
        }
    }

    /// `lhs ^ rhs` without folding.
    fn chain(lhs: Expression, rhs: Expression) -> (r: Expression)
        ensures
            r@ == chained(lhs@, rhs@),
    {
        let ghost b = rhs@;
        match lhs.into_operands(Operator::POWER) {
            Ok(mut xs) => {
                let ghost xs0 = xs@;
                xs.push(Box::new(rhs));
                proof {
                    lemma_views_of(xs0);
                    lemma_views_of(xs@);
                    assert(views_of(xs@) =~= views_of(xs0).push(b));
                }
                Expression::Expr { head: Operator::POWER, args: xs }
            },
            Err(lhs) => Expression::node2(Operator::POWER, lhs, rhs),
        }
    }

    /// `self` raised to `rhs`.
    pub fn pow(self, rhs: Expression) -> (r: Built)
        ensures
            r@ == power(self@, rhs@),
    {
        match (self, rhs) {
            (Expression::Value(x), Expression::Value(y)) => Built::folding(NumOp::Pow, x, y),
            (lhs, rhs) => Built::Done(Expression::chain(lhs, rhs)),
        }
    }

    /// `self` divided by `rhs`.
    pub fn div(self, rhs: Expression) -> (r: Built)
        ensures
            r@ == quotient(self@, rhs@),
    {
        match (self, rhs) {
            (Expression::Value(x), Expression::Value(y)) => Built::folding(NumOp::Div, x, y),
            (lhs, rhs) => {
                match rhs.pow(Expression::integer(-1)) {
                    Built::Done(r) => lhs.mul(r),
                    Built::Pending(p) => Built::Pending(
                        Pending { op: p.op, lhs: p.lhs, rhs: p.rhs, factor: Some(Box::new(lhs)) },
                    ),
                    other => other,
                }
            },
        }
    }
}

impl Clone for Expression {
    /// A deep copy: an expression with the same model.
    fn clone(&self) -> (r: Expression)
        ensures
            r@ == self@,
        decreases self,
    {
        match self {
            Expression::Symbol(s) => Expression::Symbol(s),
            Expression::Value(n) => Expression::Value(*n),
            Expression::Expr { head, args } => {
                let mut copies: Vec<Box<Expression>> = Vec::new();
                let mut i: usize = 0;
                while i < args.len()
                    invariant
                        *self == (Expression::Expr { head: *head, args: *args }),
                        i <= args.len(),
                        copies@.len() == i,
                        forall|j: int| 0 <= j < i ==> #[trigger] copies@[j].view() == args@[j].view(),
                    decreases args.len() - i,
                {
                    let child: &Expression = &args[i];
                    proof {
                        assert(decreases_to!(self->args => self->args[i as int]));
                    }
                    copies.push(Box::new(child.clone()));
                    i = i + 1;
                }
                proof {
                    lemma_views_of(copies@);
                    lemma_views_of(args@);
                    assert(views_of(copies@) =~= views_of(args@));
                }
                Expression::Expr { head: *head, args: copies }
            },
        }
    }
}

impl Pending {
    /// The expression that this construction stands for, given the result of
    /// its fold.
    pub fn complete(self, value: Numerical) -> (r: Expression)
        requires
            value.kind() == self.lhs.kind().join(self.rhs.kind()),
        ensures
            r@ == completed(self.factor_view(), value),
    {
        match self.factor {
            None => Expression::Value(value),
            Some(a) => Expression::associate(Operator::MUL, *a, Expression::Value(value)),
        }
    }
}

impl Built {
    /// The outcome of folding `op` over two literals.
    fn folding(op: NumOp, x: Numerical, y: Numerical) -> (r: Built)
        ensures
            r@ == folded(op, x, y),
    {
        match x.fold(op, y) {
            Fold::Value(n) => Built::Done(Expression::Value(n)),
            Fold::Error(e) => Built::Failed(e),
            Fold::Binary64 => Built::Pending(Pending { op, lhs: x, rhs: y, factor: None }),
        }
    }
}

/// Whether a construction comes to a literal: a folded literal, a failed
/// integer fold, or a pending fold whose literal is the whole result.
pub open spec fn yields_literal(o: Outcome) -> bool {
    match o {
        Outcome::Done(t) => t is Value,
        Outcome::Failed(_) => true,
        Outcome::Pending(_, _, _, factor) => factor is None,
    }
}

/// The flattened node is the concatenation of what each side contributes.
proof fn lemma_associated_operands(op: Operator, a: Term, b: Term)
    ensures
        associated(op, a, b) == Term::Node(op, operands(a, op) + operands(b, op)),
        operands(associated(op, a, b), op) == operands(a, op) + operands(b, op),
{
    if headed_by(a, op) && !headed_by(b, op) {
        assert(a->Node_1.push(b) =~= a->Node_1 + seq![b]);
    } else if !headed_by(a, op) && !headed_by(b, op) {
        assert(seq![a, b] =~= seq![a] + seq![b]);
    }
}

/// Flattening makes an associative operator independent of grouping: where
/// no two adjacent operands are both literals (so that nothing folds),
/// `(x op y) op z` and `x op (y op z)` build the same node, whose children
/// are those that `x`, `y` and `z` contribute, left to right.
pub proof fn lemma_associated_grouping(op: Operator, x: Term, y: Term, z: Term)
    ensures
        associated(op, associated(op, x, y), z) == associated(op, x, associated(op, y, z)),
        associated(op, x, associated(op, y, z)) == Term::Node(
            op,
            operands(x, op) + operands(y, op) + operands(z, op),
        ),
{
    lemma_associated_operands(op, x, y);
    lemma_associated_operands(op, y, z);
    lemma_associated_operands(op, associated(op, x, y), z);
    lemma_associated_operands(op, x, associated(op, y, z));
    assert(operands(x, op) + operands(y, op) + operands(z, op) =~= operands(x, op) + (operands(
        y,
        op,
    ) + operands(z, op)));
}

/// Sums do not depend on grouping where nothing folds; symbols `x`, `y`, `z`
/// give the node `+[x, y, z]` either way.
pub proof fn lemma_sum_grouping(x: Term, y: Term, z: Term)
    requires
        !(x is Value && y is Value),
        !(y is Value && z is Value),
    ensures
        sum(x, y) is Done,
        sum(y, z) is Done,
        sum(sum(x, y)->Done_0, z) == sum(x, sum(y, z)->Done_0),
        sum(x, sum(y, z)->Done_0) == Outcome::Done(
            Term::Node(
                Operator::ADD,
                operands(x, Operator::ADD) + operands(y, Operator::ADD) + operands(z, Operator::ADD),
            ),
        ),
{
    lemma_associated_grouping(Operator::ADD, x, y, z);
}

/// Products do not depend on grouping where nothing folds; symbols `x`, `y`,
/// `z` give the node `*[x, y, z]` either way.
pub proof fn lemma_product_grouping(x: Term, y: Term, z: Term)
    requires
        !(x is Value && y is Value),
        !(y is Value && z is Value),
    ensures
        product(x, y) is Done,
        product(y, z) is Done,
        product(product(x, y)->Done_0, z) == product(x, product(y, z)->Done_0),
        product(x, product(y, z)->Done_0) == Outcome::Done(
            Term::Node(
                Operator::MUL,
                operands(x, Operator::MUL) + operands(y, Operator::MUL) + operands(z, Operator::MUL),
            ),
        ),
{
    lemma_associated_grouping(Operator::MUL, x, y, z);
}

/// Powers chain on the left only: raising `x ^ a` to `b` gives the single
/// node `^[x, a, b]`, while a power standing as the exponent is kept whole.
pub proof fn lemma_power_chaining(x: Term, a: Term, b: Term, c: Term)
    requires
        !(x is Value && a is Value),
        !headed_by(x, Operator::POWER),
        !(c is Value),
    ensures
        power(x, a) == Outcome::Done(Term::Node(Operator::POWER, seq![x, a])),
        power(power(x, a)->Done_0, b) == Outcome::Done(Term::Node(Operator::POWER, seq![x, a, b])),
        power(x, c) == Outcome::Done(Term::Node(Operator::POWER, seq![x, c])),
{
    assert(seq![x, a].push(b) =~= seq![x, a, b]);
}

/// Combining two literals never builds a node: the result is a literal, a
/// failed integer fold, or a binary64 fold whose literal is the whole result.
pub proof fn lemma_literals_fold(x: Numerical, y: Numerical, value: Numerical)
    ensures
        yields_literal(sum(Term::Value(x), Term::Value(y))),
        yields_literal(difference(Term::Value(x), Term::Value(y))),
        yields_literal(product(Term::Value(x), Term::Value(y))),
        yields_literal(quotient(Term::Value(x), Term::Value(y))),
        yields_literal(power(Term::Value(x), Term::Value(y))),
        yields_literal(negated_term(Term::Value(x))),
        completed(None, value) == Term::Value(value),
{
}

/// Well-formedness of what a construction comes to: the finished expression,
/// or the factor that a pending fold will be multiplied with.
pub open spec fn outcome_wf(o: Outcome) -> bool {
    match o {
        Outcome::Done(t) => wf(t),
        Outcome::Pending(_, _, _, Some(a)) => wf(a),
        _ => true,
    }
}

/// Building from well-formed expressions gives well-formed expressions: no
/// construction makes a node other than a call with fewer than two children.
pub proof fn lemma_construction_preserves_wf(a: Term, b: Term, value: Numerical)
    requires
        wf(a),
        wf(b),
    ensures
        outcome_wf(sum(a, b)),
        outcome_wf(product(a, b)),
        outcome_wf(negated_term(a)),
        outcome_wf(difference(a, b)),
        outcome_wf(power(a, b)),
        outcome_wf(quotient(a, b)),
        wf(completed(None, value)),
        wf(completed(Some(a), value)),
{
    lemma_associated_wf(Operator::ADD, a, b);
    lemma_associated_wf(Operator::MUL, a, b);
    lemma_chained_wf(a, b);
    lemma_chained_wf(b, Term::Value(reciprocal_exponent()));
    let minus_one = Term::Value(Numerical::Int(-1i64));
    lemma_associated_wf(Operator::MUL, minus_one, a);
    lemma_associated_wf(Operator::MUL, minus_one, b);
    if let Outcome::Done(nb) = negated_term(b) {
        lemma_associated_wf(Operator::ADD, a, nb);
    }
    if let Outcome::Done(r) = power(b, Term::Value(reciprocal_exponent())) {
        lemma_associated_wf(Operator::MUL, a, r);
    }
    lemma_associated_wf(Operator::MUL, a, Term::Value(value));
}

proof fn lemma_associated_wf(op: Operator, a: Term, b: Term)
    requires
        wf(a),
        wf(b),
    ensures
        wf(associated(op, a, b)),
{
    let xs = associated(op, a, b)->Node_1;
    assert forall|i: int| 0 <= i < xs.len() implies wf(#[trigger] xs[i]) by {
        if headed_by(a, op) && headed_by(b, op) {
            if i >= a->Node_1.len() {
                assert(xs[i] == b->Node_1[i - a->Node_1.len()]);
            }
        } else if headed_by(b, op) {
            if i > 0 {
                assert(xs[i] == b->Node_1[i - 1]);
            }
        }
    }
}

proof fn lemma_chained_wf(a: Term, b: Term)
    requires
        wf(a),
        wf(b),
    ensures
        wf(chained(a, b)),
{
    let xs = chained(a, b)->Node_1;
    assert forall|i: int| 0 <= i < xs.len() implies wf(#[trigger] xs[i]) by {}
}

} // verus!
