//! Arithmetic expressions over 32-bit numbers and named variables. While an
//! expression is built, each node learns how many operations it holds,
//! whether it holds a variable, and how many registers its evaluation
//! needs; and an operation on constants is replaced by its value at once.

use vstd::prelude::*;

verus! {

pub type Var = String;

pub type Val = i32;

/// Why an expression has no value.
#[derive(Clone, Copy, Debug, PartialEq, Eq)]
pub enum EvalError {
    /// A variable is not among the given ones.
    VarNotFound,
    /// A result is not a 32-bit number.
    Overflow,
    /// A division by zero.
    DivisionByZero,
}

/// An expression with what is known of it.
pub struct Node {
    pub ast: Ast,
    /// The number of operations in the expression.
    pub weight: usize,
    /// Whether the expression holds no variable.
    pub is_const: bool,
    /// The number of registers beyond the first that evaluating the
    /// expression takes.
    pub stack_size: usize,
}

pub enum Ast {
    Literal(Val),
    Var(Var),
    Add(Box<Node>, Box<Node>),
    Sub(Box<Node>, Box<Node>),
    Mul(Box<Node>, Box<Node>),
    Div(Box<Node>, Box<Node>),
}

/// An operation of two operands.
#[derive(Clone, Copy, Debug, PartialEq, Eq)]
pub enum BinOp {
    Add,
    Sub,
    Mul,
    Div,
}

/// What `name` stands for among `env`: the value of the first pair that
/// names it.
pub open spec fn lookup(env: Seq<(Var, Val)>, name: Seq<char>, from: int) -> Option<Val>
    decreases env.len() - from,
{
    if from < 0 || from >= env.len() {
        None
    } else if env[from].0@ == name {
        Some(env[from].1)
    } else {
        lookup(env, name, from + 1)
    }
}

/// The quotient of `a` by `b`, rounded towards zero: the quotient of their
/// magnitudes, with the sign of the exact quotient.
pub open spec fn truncated(a: int, b: int) -> int {
    if a == 0 || b == 0 {
        0
    } else if a > 0 && b > 0 {
        a / b
    } else if a < 0 && b < 0 {
        (a * -1) / (b * -1)
    } else if a < 0 {
        ((a * -1) / b) * -1
    } else {
        (a / (b * -1)) * -1
    }
}

/// The result of one operation, where it is a 32-bit number.
pub open spec fn applied(op: BinOp, a: Val, b: Val) -> Result<Val, EvalError> {
    let exact: int = match op {
        BinOp::Add => a + b,
        BinOp::Sub => a - b,
        BinOp::Mul => a * b,
        BinOp::Div => truncated(a as int, b as int),
    };
    if op == BinOp::Div && b == 0 {
        Err(EvalError::DivisionByZero)
    } else if i32::MIN <= exact <= i32::MAX {
        Ok(exact as Val)
    } else {
        Err(EvalError::Overflow)
    }
}

/// The value of an operation whose operands have the values `a` and `b`, or
/// no value. Where the left operand has none, the right one is not looked
/// at.
pub open spec fn combined(op: BinOp, a: Result<Val, EvalError>, b: Result<Val, EvalError>) -> Result<
    Val,
    EvalError,
> {
    match a {
        Err(e) => Err(e),
        Ok(x) => match b {
            Err(e) => Err(e),
            Ok(y) => applied(op, x, y),
        },
    }
}

impl Ast {
    /// The value of the expression where the variables stand for what `env`
    /// says.
    pub open spec fn value(self, env: Seq<(Var, Val)>) -> Result<Val, EvalError>
        decreases self,
    {
        match self {
            Ast::Literal(val) => Ok(val),
            Ast::Var(name) => match lookup(env, name@, 0) {
                Some(val) => Ok(val),
                None => Err(EvalError::VarNotFound),
            },
            Ast::Add(a, b) => combined(BinOp::Add, a.ast.value(env), b.ast.value(env)),
            Ast::Sub(a, b) => combined(BinOp::Sub, a.ast.value(env), b.ast.value(env)),
            Ast::Mul(a, b) => combined(BinOp::Mul, a.ast.value(env), b.ast.value(env)),
            Ast::Div(a, b) => combined(BinOp::Div, a.ast.value(env), b.ast.value(env)),
        }
    }

    /// The expression holds no variable.
    pub open spec fn closed(self) -> bool
        decreases self,
    {
        match self {
            Ast::Literal(_) => true,
            Ast::Var(_) => false,
            Ast::Add(a, b) => a.ast.closed() && b.ast.closed(),
            Ast::Sub(a, b) => a.ast.closed() && b.ast.closed(),
            Ast::Mul(a, b) => a.ast.closed() && b.ast.closed(),
            Ast::Div(a, b) => a.ast.closed() && b.ast.closed(),
        }
    }

    /// Evaluates the expression.
    pub fn eval(&self, env: &[(Var, Val)]) -> (r: Result<Val, EvalError>)
        ensures
            r == self.value(env@),
        decreases self,
    {
        let (op, a1, a2): (BinOp, &Box<Node>, &Box<Node>) = match self {
            Ast::Literal(val) => {
                return Ok(*val);
            },
            Ast::Var(name) => {
                return match find(env, name) {
                    Some(val) => Ok(val),
                    None => Err(EvalError::VarNotFound),
                };
            },
            Ast::Add(a1, a2) => (BinOp::Add, a1, a2),
            Ast::Sub(a1, a2) => (BinOp::Sub, a1, a2),
            Ast::Mul(a1, a2) => (BinOp::Mul, a1, a2),
            Ast::Div(a1, a2) => (BinOp::Div, a1, a2),
        };
        let x = match a1.ast.eval(env) {
            Ok(x) => x,
            Err(e) => {
                return Err(e);
            },
        };
        let y = match a2.ast.eval(env) {
            Ok(y) => y,
            Err(e) => {
                return Err(e);
            },
        };
        apply(op, x, y)
    }
}

/// Looks `name` up.
fn find(env: &[(Var, Val)], name: &Var) -> (r: Option<Val>)
    ensures
        r == lookup(env@, name@, 0),
{
    let mut i: usize = 0;
    while i < env.len()
        invariant
            i <= env@.len(),
            lookup(env@, name@, 0) == lookup(env@, name@, i as int),
        decreases env@.len() - i,
    {
        if env[i].0 == *name {
            return Some(env[i].1);
        }
        i += 1;
    }
    None
}

/// Applies one operation.
pub fn apply(op: BinOp, a: Val, b: Val) -> (r: Result<Val, EvalError>)
    ensures
        r == applied(op, a, b),
{
    match op {
        BinOp::Add => match a.checked_add(b) {
            Some(v) => Ok(v),
            None => Err(EvalError::Overflow),
        },
        BinOp::Sub => match a.checked_sub(b) {
            Some(v) => Ok(v),
            None => Err(EvalError::Overflow),
        },
        BinOp::Mul => match a.checked_mul(b) {
            Some(v) => Ok(v),
            None => Err(EvalError::Overflow),
        },
        BinOp::Div => match a.checked_div(b) {
            Some(v) => Ok(v),
            None => if b == 0 {
                Err(EvalError::DivisionByZero)
            } else {
                Err(EvalError::Overflow)
            },
        },
    }
}

/// The weight of an operation on operands of the weights `left` and
/// `right`: one more than both together, as far as a count goes.
pub open spec fn weight_of(left: usize, right: usize) -> usize {
    if 1 + left + right <= usize::MAX {
        (1 + left + right) as usize
    } else {
        usize::MAX
    }
}

/// The registers that an operation takes whose operands take `left` and
/// `right`: those of the greedier operand, and one more where both take the
/// same.
pub open spec fn stack_size_of(left: usize, right: usize) -> usize {
    if left < right {
        right
    } else if left > right {
        left
    } else if left < usize::MAX {
        (left + 1) as usize
    } else {
        usize::MAX
    }
}

fn get_weight(left_weight: usize, right_weight: usize) -> (weight: usize)
    ensures
        weight == weight_of(left_weight, right_weight),
{
    match left_weight.checked_add(right_weight) {
        Some(both) => match both.checked_add(1) {
            Some(weight) => weight,
            None => usize::MAX,
        },
        None => usize::MAX,
    }
}

fn get_is_const(left_is_const: bool, right_is_const: bool) -> (is_const: bool)
    ensures
        is_const == (left_is_const && right_is_const),
{
    left_is_const && right_is_const
}

fn get_stack_size(left_size: usize, right_size: usize) -> (size: usize)
    ensures
        size == stack_size_of(left_size, right_size),
{
    if left_size < right_size {
        right_size
    } else if left_size > right_size {
        left_size
    } else if left_size < usize::MAX {
        1 + left_size
    } else {
        usize::MAX
    }
}

/// The expression of the operation `op` on two operands.
pub open spec fn joined(op: BinOp, left: Node, right: Node) -> Ast {
    match op {
        BinOp::Add => Ast::Add(Box::new(left), Box::new(right)),
        BinOp::Sub => Ast::Sub(Box::new(left), Box::new(right)),
        BinOp::Mul => Ast::Mul(Box::new(left), Box::new(right)),
        BinOp::Div => Ast::Div(Box::new(left), Box::new(right)),
    }
}

impl Node {
    /// What is known of the node, and of every node under it, is true.
    pub open spec fn wf(self) -> bool
        decreases self,
    {
        match self.ast {
            Ast::Literal(_) => self.weight == 0 && self.is_const && self.stack_size == 0,
            Ast::Var(_) => self.weight == 0 && !self.is_const && self.stack_size == 0,
            Ast::Add(a, b) => a.wf() && b.wf() && self.knows(*a, *b),
            Ast::Sub(a, b) => a.wf() && b.wf() && self.knows(*a, *b),
            Ast::Mul(a, b) => a.wf() && b.wf() && self.knows(*a, *b),
            Ast::Div(a, b) => a.wf() && b.wf() && self.knows(*a, *b),
        }
    }

    /// What the node knows of itself follows from what its operands know.
    pub open spec fn knows(self, left: Node, right: Node) -> bool {
        &&& self.weight == weight_of(left.weight, right.weight)
        &&& self.is_const == (left.is_const && right.is_const)
        &&& self.stack_size == stack_size_of(left.stack_size, right.stack_size)
    }

    fn new(ast: Ast, weight: usize, is_const: bool, stack_size: usize) -> (node: Self)
        ensures
            node == (Node { ast, weight, is_const, stack_size }),
    {
        Self { ast, weight, is_const, stack_size }
    }

    /// Evaluates the expression of the node.
    pub fn eval(&self, env: &[(Var, Val)]) -> (r: Result<Val, EvalError>)
        ensures
            r == self.ast.value(env@),
    {
        self.ast.eval(env)
    }

    /// A number.
    pub fn literal(val: Val) -> (node: Self)
        ensures
            node.wf(),
            node.ast == Ast::Literal(val),
    {
        Self::new(Ast::Literal(val), 0, true, 0)
    }

    /// A variable.
    pub fn var(var: Var) -> (node: Self)
        ensures
            node.wf(),
            node.ast == Ast::Var(var),
    {
        Self::new(Ast::Var(var), 0, false, 0)
    }

    /// The sum of two expressions, or its value where both are constant.
    pub fn add(left: Self, right: Self) -> (node: Self)
        requires
            left.wf(),
            right.wf(),
        ensures
            node == Self::folded(BinOp::Add, left, right),
    {
        Self::binop(BinOp::Add, left, right)
    }

    /// The difference of two expressions, or its value where both are
    /// constant.
    pub fn sub(left: Self, right: Self) -> (node: Self)
        requires
            left.wf(),
            right.wf(),
        ensures
            node == Self::folded(BinOp::Sub, left, right),
    {
        Self::binop(BinOp::Sub, left, right)
    }

    /// The product of two expressions, or its value where both are
    /// constant.
    pub fn mul(left: Self, right: Self) -> (node: Self)
        requires
            left.wf(),
            right.wf(),
        ensures
            node == Self::folded(BinOp::Mul, left, right),
    {
        Self::binop(BinOp::Mul, left, right)
    }

    /// The quotient of two expressions, or its value where both are
    /// constant.
    pub fn div(left: Self, right: Self) -> (node: Self)
        requires
            left.wf(),
            right.wf(),
        ensures
            node == Self::folded(BinOp::Div, left, right),
    {
        Self::binop(BinOp::Div, left, right)
    }

    /// The node of the operation `op` on two operands as it stands.
    pub open spec fn plain(op: BinOp, left: Node, right: Node) -> Node {
        Node {
            ast: joined(op, left, right),
            weight: weight_of(left.weight, right.weight),
            is_const: left.is_const && right.is_const,
            stack_size: stack_size_of(left.stack_size, right.stack_size),
        }
    }

    /// The node that an operation on two operands gives: the number that
    /// the operation comes to, where both operands are constant and the
    /// operation has a value; else the operation as it stands.
    pub open spec fn folded(op: BinOp, left: Node, right: Node) -> Node {
        let node = Self::plain(op, left, right);
        if node.is_const && node.ast.value(Seq::empty()) is Ok {
            Node {
                ast: Ast::Literal(node.ast.value(Seq::empty())->Ok_0),
                weight: 0,
                is_const: true,
                stack_size: 0,
            }
        } else {
            node
        }
    }

    fn binop(op: BinOp, left: Self, right: Self) -> (node: Self)
        requires
            left.wf(),
            right.wf(),
        ensures
            node == Self::folded(op, left, right),
    {
        let weight = get_weight(left.weight, right.weight);
        let is_const = get_is_const(left.is_const, right.is_const);
        let stack_size = get_stack_size(left.stack_size, right.stack_size);
        let ast = match op {
            BinOp::Add => Ast::Add(Box::new(left), Box::new(right)),
            BinOp::Sub => Ast::Sub(Box::new(left), Box::new(right)),
            BinOp::Mul => Ast::Mul(Box::new(left), Box::new(right)),
            BinOp::Div => Ast::Div(Box::new(left), Box::new(right)),
        };
        let node = Self::new(ast, weight, is_const, stack_size);
        if is_const {
            let none: Vec<(Var, Val)> = Vec::new();
            match node.eval(none.as_slice()) {
                Ok(val) => {
                    return Node::literal(val);
                },
                Err(_) => {},
            }
        }
        node
    }
}

/// A constant node holds no variable, and the other way round.
pub proof fn lemma_const_is_closed(node: Node)
    requires
        node.wf(),
    ensures
        node.is_const == node.ast.closed(),
    decreases node,
{
    match node.ast {
        Ast::Literal(_) => {},
        Ast::Var(_) => {},
        Ast::Add(a, b) => {
            lemma_const_is_closed(*a);
            lemma_const_is_closed(*b);
        },
        Ast::Sub(a, b) => {
            lemma_const_is_closed(*a);
            lemma_const_is_closed(*b);
        },
        Ast::Mul(a, b) => {
            lemma_const_is_closed(*a);
            lemma_const_is_closed(*b);
        },
        Ast::Div(a, b) => {
            lemma_const_is_closed(*a);
            lemma_const_is_closed(*b);
        },
    }
}

/// The value of an expression without variables is the same whatever the
/// variables stand for.
pub proof fn lemma_closed_value(ast: Ast, env1: Seq<(Var, Val)>, env2: Seq<(Var, Val)>)
    requires
        ast.closed(),
    ensures
        ast.value(env1) == ast.value(env2),
    decreases ast,
{
    match ast {
        Ast::Literal(_) => {},
        Ast::Var(_) => {},
        Ast::Add(a, b) => {
            lemma_closed_value(a.ast, env1, env2);
            lemma_closed_value(b.ast, env1, env2);
        },
        Ast::Sub(a, b) => {
            lemma_closed_value(a.ast, env1, env2);
            lemma_closed_value(b.ast, env1, env2);
        },
        Ast::Mul(a, b) => {
            lemma_closed_value(a.ast, env1, env2);
            lemma_closed_value(b.ast, env1, env2);
        },
        Ast::Div(a, b) => {
            lemma_closed_value(a.ast, env1, env2);
            lemma_closed_value(b.ast, env1, env2);
        },
    }
}

/// Folding is sound: the node that an operation gives is well-formed and
/// has, whatever the variables stand for, the value of the operation as it
/// stands.
pub proof fn lemma_folded(op: BinOp, left: Node, right: Node, env: Seq<(Var, Val)>)
    requires
        left.wf(),
        right.wf(),
    ensures
        Node::folded(op, left, right).wf(),
        Node::folded(op, left, right).ast.value(env) == joined(op, left, right).value(env),
{
    let node = Node::plain(op, left, right);
    assert(node.wf());
    lemma_const_is_closed(node);
    if node.is_const {
        lemma_closed_value(node.ast, env, Seq::empty());
    }
}

} // verus!
