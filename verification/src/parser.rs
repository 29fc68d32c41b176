//! The grammar of the expressions of `ast`:
//!
//! ```text
//! expr = add
//! add  = prod { ("+" | "-") prod }
//! prod = atom { ("*" | "/") prod }
//! atom = number | name | "(" expr ")"
//! ```
//!
//! A number is an optional sign and decimal digits that make a 32-bit number;
//! a name is a run of letters. The operands of `add` are taken from the left.

use vstd::prelude::*;
use vstd::string::StrSliceExecFns;
use crate::ast::{combined, lookup, BinOp, EvalError, Node, Val, Var};
use crate::ast::{joined, lemma_folded};

verus! {

/// An expression as the grammar reads it.
pub enum Expr {
    Lit(Val),
    Name(Seq<char>),
    Bin(BinOp, Box<Expr>, Box<Expr>),
}

impl Expr {
    /// The value of the expression where the variables stand for what `env`
    /// says.
    pub open spec fn value(self, env: Seq<(Var, Val)>) -> Result<Val, EvalError>
        decreases self,
    {
        match self {
            Expr::Lit(val) => Ok(val),
            Expr::Name(name) => match lookup(env, name, 0) {
                Some(val) => Ok(val),
                None => Err(EvalError::VarNotFound),
            },
            Expr::Bin(op, a, b) => combined(op, a.value(env), b.value(env)),
        }
    }
}

/// The node is well-formed and means what `e` means.
pub open spec fn denotes(node: Node, e: Expr) -> bool {
    node.wf() && forall|env: Seq<(Var, Val)>| #[trigger] node.ast.value(env) == e.value(env)
}

pub open spec fn is_digit(c: char) -> bool {
    48 <= c as u32 <= 57
}

pub open spec fn is_alpha(c: char) -> bool {
    65 <= c as u32 <= 90 || 97 <= c as u32 <= 122
}

/// The number that the digits from `at` on make of `acc`, each digit added
/// to ten times what came before, or taken from it where the number is
/// negative; and where the digits end. `None` where that is no 32-bit
/// number.
pub open spec fn digits_at(inp: Seq<char>, at: int, acc: Val, negative: bool) -> Option<(Val, int)>
    decreases inp.len() - at,
{
    if at < 0 || at >= inp.len() || !is_digit(inp[at]) {
        Some((acc, at))
    } else {
        let d = inp[at] as u32 - 48;
        let next = if negative {
            acc * 10 - d
        } else {
            acc * 10 + d
        };
        if i32::MIN <= next <= i32::MAX {
            digits_at(inp, at + 1, next as Val, negative)
        } else {
            None
        }
    }
}

/// The number that starts at `from`, and where it ends.
pub open spec fn number_at(inp: Seq<char>, from: int) -> Option<(Val, int)> {
    if from < 0 || from >= inp.len() {
        None
    } else {
        let signed = inp[from] == '+' || inp[from] == '-';
        let start = if signed {
            from + 1
        } else {
            from
        };
        if start >= inp.len() || !is_digit(inp[start]) {
            None
        } else {
            digits_at(inp, start, 0, inp[from] == '-')
        }
    }
}

/// Where the run of letters that starts at `from` ends.
pub open spec fn name_end(inp: Seq<char>, from: int) -> int
    decreases inp.len() - from,
{
    if from < 0 || from >= inp.len() || !is_alpha(inp[from]) {
        from
    } else {
        name_end(inp, from + 1)
    }
}

/// `to`, or the place behind `from` where `to` is not behind `from`. What
/// is read always ends behind where it starts and inside the text; the
/// definitions below say so where they need it.
pub open spec fn onward(from: int, to: int) -> int {
    if to > from {
        to
    } else {
        from + 1
    }
}

pub open spec fn expr_at(inp: Seq<char>, from: int) -> Option<(Expr, int)>
    decreases inp.len() - from, 4int, 0int,
{
    add_at(inp, from)
}

pub open spec fn add_at(inp: Seq<char>, from: int) -> Option<(Expr, int)>
    decreases inp.len() - from, 3int, 0int,
{
    match prod_at(inp, from) {
        None => None,
        Some((left, next)) => if onward(from, next) <= inp.len() {
            add_tail(inp, left, onward(from, next))
        } else {
            None
        },
    }
}

/// The operation that the sign `c` stands for.
pub open spec fn op_of(c: char) -> BinOp {
    if c == '+' {
        BinOp::Add
    } else if c == '-' {
        BinOp::Sub
    } else if c == '*' {
        BinOp::Mul
    } else {
        BinOp::Div
    }
}

/// The operands that follow `left` from `at` on, taken on from the left.
pub open spec fn add_tail(inp: Seq<char>, left: Expr, at: int) -> Option<(Expr, int)>
    decreases inp.len() - at, 0int, 0int,
{
    if 0 <= at < inp.len() && (inp[at] == '+' || inp[at] == '-') {
        match prod_at(inp, at + 1) {
            None => Some((left, at)),
            Some((right, next)) => if onward(at + 1, next) <= inp.len() {
                add_tail(
                    inp,
                    Expr::Bin(op_of(inp[at]), Box::new(left), Box::new(right)),
                    onward(at + 1, next),
                )
            } else {
                None
            },
        }
    } else {
        Some((left, at))
    }
}

pub open spec fn prod_at(inp: Seq<char>, from: int) -> Option<(Expr, int)>
    decreases inp.len() - from, 2int, 0int,
{
    match atom_at(inp, from) {
        None => None,
        Some((left, next)) => if onward(from, next) <= inp.len() {
            prod_tail(inp, left, onward(from, next))
        } else {
            None
        },
    }
}

/// The operands that follow `left` from `at` on, each of them a product of
/// its own, taken on from the left.
pub open spec fn prod_tail(inp: Seq<char>, left: Expr, at: int) -> Option<(Expr, int)>
    decreases inp.len() - at, 0int, 0int,
{
    if 0 <= at < inp.len() && (inp[at] == '*' || inp[at] == '/') {
        match prod_at(inp, at + 1) {
            None => Some((left, at)),
            Some((right, next)) => if onward(at + 1, next) <= inp.len() {
                prod_tail(
                    inp,
                    Expr::Bin(op_of(inp[at]), Box::new(left), Box::new(right)),
                    onward(at + 1, next),
                )
            } else {
                None
            },
        }
    } else {
        Some((left, at))
    }
}

pub open spec fn atom_at(inp: Seq<char>, from: int) -> Option<(Expr, int)>
    decreases inp.len() - from, 1int, 0int,
{
    if from < 0 || from >= inp.len() {
        None
    } else {
        match number_at(inp, from) {
            Some((val, end)) => Some((Expr::Lit(val), end)),
            None => if is_alpha(inp[from]) {
                Some((Expr::Name(inp.subrange(from, name_end(inp, from))), name_end(inp, from)))
            } else if inp[from] == '(' {
                match expr_at(inp, from + 1) {
                    Some((inner, close)) => if 0 <= close < inp.len() && inp[close] == ')' {
                        Some((inner, close + 1))
                    } else {
                        None
                    },
                    None => None,
                }
            } else {
                None
            },
        }
    }
}

/// The expression that the whole of `inp` spells, if it spells one.
pub open spec fn parsed(inp: Seq<char>) -> Option<Expr> {
    match expr_at(inp, 0) {
        Some((e, end)) => if end == inp.len() {
            Some(e)
        } else {
            None
        },
        None => None,
    }
}

/// What reading gave is what the grammar reads, and it ends behind where
/// it starts and inside the text.
pub open spec fn reads(
    inp: Seq<char>,
    from: int,
    got: Option<(Node, usize)>,
    want: Option<(Expr, int)>,
) -> bool {
    match got {
        Some((node, end)) => {
            &&& want is Some
            &&& denotes(node, want.unwrap().0)
            &&& end == want.unwrap().1
            &&& from < end <= inp.len()
        },
        None => want is None,
    }
}

fn code(c: char) -> (u: u32)
    ensures
        u == c as u32,
{
    c as u32
}

fn parse_number(inp: &str, len: usize, from: usize) -> (r: Option<(Val, usize)>)
    requires
        len == inp@.len(),
    ensures
        r is Some ==> from < r.unwrap().1 <= len,
        match r {
            Some((val, end)) => number_at(inp@, from as int) == Some((val, end as int)),
            None => number_at(inp@, from as int) is None,
        },
{
    if from >= len {
        return None;
    }
    let first = inp.get_char(from);
    let negative = first == '-';
    let start = if first == '+' || first == '-' {
        from + 1
    } else {
        from
    };
    if start >= len {
        return None;
    }
    let c = code(inp.get_char(start));
    if c < 48 || c > 57 {
        return None;
    }
    let mut at: usize = start;
    let mut acc: Val = 0;
    loop
        invariant
            len == inp@.len(),
            from <= start <= at <= len,
            at == start ==> is_digit(inp@[start as int]),
            negative ==> acc <= 0,
            !negative ==> acc >= 0,
            digits_at(inp@, start as int, 0, negative) == digits_at(inp@, at as int, acc, negative),
            number_at(inp@, from as int) == digits_at(inp@, start as int, 0, negative),
        decreases len - at,
    {
        if at >= len {
            return Some((acc, at));
        }
        let c = code(inp.get_char(at));
        if c < 48 || c > 57 {
            return Some((acc, at));
        }
        let d: Val = (c - 48) as Val;
        let tens = match acc.checked_mul(10) {
            Some(tens) => tens,
            None => {
                return None;
            },
        };
        let next = if negative {
            tens.checked_sub(d)
        } else {
            tens.checked_add(d)
        };
        acc = match next {
            Some(next) => next,
            None => {
                return None;
            },
        };
        at += 1;
    }
}

fn parse_name_end(inp: &str, len: usize, from: usize) -> (end: usize)
    requires
        len == inp@.len(),
        from <= len,
    ensures
        end == name_end(inp@, from as int),
        from <= end <= len,
        from < len && is_alpha(inp@[from as int]) ==> from < end,
{
    let mut at: usize = from;
    loop
        invariant
            len == inp@.len(),
            from <= at <= len,
            name_end(inp@, from as int) == name_end(inp@, at as int),
            from < len && is_alpha(inp@[from as int]) && at == from ==> is_alpha(inp@[at as int]),
        decreases len - at,
    {
        if at >= len {
            return at;
        }
        let c = code(inp.get_char(at));
        if !((65 <= c && c <= 90) || (97 <= c && c <= 122)) {
            return at;
        }
        at += 1;
    }
}

fn op_at(c: char) -> (op: BinOp)
    ensures
        op == op_of(c),
{
    if c == '+' {
        BinOp::Add
    } else if c == '-' {
        BinOp::Sub
    } else if c == '*' {
        BinOp::Mul
    } else {
        BinOp::Div
    }
}

/// The node of `op` on two nodes means what the operation on their
/// expressions means.
proof fn lemma_join(op: BinOp, left: Node, right: Node, l: Expr, r: Expr)
    requires
        denotes(left, l),
        denotes(right, r),
    ensures
        denotes(Node::folded(op, left, right), Expr::Bin(op, Box::new(l), Box::new(r))),
{
    let node = Node::folded(op, left, right);
    let e = Expr::Bin(op, Box::new(l), Box::new(r));
    assert forall|env: Seq<(Var, Val)>| #[trigger] node.ast.value(env) == e.value(env) by {
        lemma_folded(op, left, right, env);
        assert(left.ast.value(env) == l.value(env));
        assert(right.ast.value(env) == r.value(env));
    }
    lemma_folded(op, left, right, Seq::empty());
}

fn join(op: BinOp, left: Node, right: Node) -> (node: Node)
    requires
        left.wf(),
        right.wf(),
    ensures
        node == Node::folded(op, left, right),
{
    match op {
        BinOp::Add => Node::add(left, right),
        BinOp::Sub => Node::sub(left, right),
        BinOp::Mul => Node::mul(left, right),
        BinOp::Div => Node::div(left, right),
    }
}

fn parse_expr(inp: &str, len: usize, from: usize) -> (r: Option<(Node, usize)>)
    requires
        len == inp@.len(),
    ensures
        reads(inp@, from as int, r, expr_at(inp@, from as int)),
    decreases len - from, 4int, 0int,
{
    parse_add(inp, len, from)
}

fn parse_add(inp: &str, len: usize, from: usize) -> (r: Option<(Node, usize)>)
    requires
        len == inp@.len(),
    ensures
        reads(inp@, from as int, r, add_at(inp@, from as int)),
    decreases len - from, 3int, 0int,
{
    match parse_prod(inp, len, from) {
        None => None,
        Some((left, next)) => {
            let ghost l = prod_at(inp@, from as int).unwrap().0;
            Some(add_rest(inp, len, left, Ghost(l), next))
        },
    }
}

fn add_rest(inp: &str, len: usize, left: Node, Ghost(l): Ghost<Expr>, at: usize) -> (r: (
    Node,
    usize,
))
    requires
        len == inp@.len(),
        at <= len,
        denotes(left, l),
    ensures
        add_tail(inp@, l, at as int) is Some,
        denotes(r.0, add_tail(inp@, l, at as int).unwrap().0),
        r.1 == add_tail(inp@, l, at as int).unwrap().1,
        at <= r.1 <= len,
    decreases len - at, 0int, 0int,
{
    if at >= len {
        return (left, at);
    }
    let c = inp.get_char(at);
    if c != '+' && c != '-' {
        return (left, at);
    }
    match parse_prod(inp, len, at + 1) {
        None => (left, at),
        Some((right, next)) => {
            let ghost r = prod_at(inp@, at + 1).unwrap().0;
            proof {
                lemma_join(op_of(c), left, right, l, r);
            }
            let node = join(op_at(c), left, right);
            add_rest(inp, len, node, Ghost(Expr::Bin(op_of(c), Box::new(l), Box::new(r))), next)
        },
    }
}

fn parse_prod(inp: &str, len: usize, from: usize) -> (r: Option<(Node, usize)>)
    requires
        len == inp@.len(),
    ensures
        reads(inp@, from as int, r, prod_at(inp@, from as int)),
    decreases len - from, 2int, 0int,
{
    match parse_atom(inp, len, from) {
        None => None,
        Some((left, next)) => {
            let ghost l = atom_at(inp@, from as int).unwrap().0;
            Some(prod_rest(inp, len, left, Ghost(l), next))
        },
    }
}

fn prod_rest(inp: &str, len: usize, left: Node, Ghost(l): Ghost<Expr>, at: usize) -> (r: (
    Node,
    usize,
))
    requires
        len == inp@.len(),
        at <= len,
        denotes(left, l),
    ensures
        prod_tail(inp@, l, at as int) is Some,
        denotes(r.0, prod_tail(inp@, l, at as int).unwrap().0),
        r.1 == prod_tail(inp@, l, at as int).unwrap().1,
        at <= r.1 <= len,
    decreases len - at, 0int, 0int,
{
    if at >= len {
        return (left, at);
    }
    let c = inp.get_char(at);
    if c != '*' && c != '/' {
        return (left, at);
    }
    match parse_prod(inp, len, at + 1) {
        None => (left, at),
        Some((right, next)) => {
            let ghost r = prod_at(inp@, at + 1).unwrap().0;
            proof {
                lemma_join(op_of(c), left, right, l, r);
            }
            let node = join(op_at(c), left, right);
            prod_rest(inp, len, node, Ghost(Expr::Bin(op_of(c), Box::new(l), Box::new(r))), next)
        },
    }
}

fn parse_atom(inp: &str, len: usize, from: usize) -> (r: Option<(Node, usize)>)
    requires
        len == inp@.len(),
    ensures
        reads(inp@, from as int, r, atom_at(inp@, from as int)),
    decreases len - from, 1int, 0int,
{
    if from >= len {
        return None;
    }
    match parse_number(inp, len, from) {
        Some((val, end)) => {
            return Some((Node::literal(val), end));
        },
        None => {},
    }
    let c = inp.get_char(from);
    let u = code(c);
    if (65 <= u && u <= 90) || (97 <= u && u <= 122) {
        let end = parse_name_end(inp, len, from);
        let name = inp.substring_char(from, end).to_owned();
        return Some((Node::var(name), end));
    }
    if c != '(' {
        return None;
    }
    match parse_expr(inp, len, from + 1) {
        None => None,
        Some((inner, close)) => {
            if close < len && inp.get_char(close) == ')' {
                Some((inner, close + 1))
            } else {
                None
            }
        },
    }
}

/// Reads an expression: the whole of `inp` has to spell one. The node that
/// comes back is well-formed and means what the expression means; what in
/// it was constant is a number already.
pub fn parse(inp: &str) -> (r: Option<Node>)
    ensures
        match r {
            Some(node) => parsed(inp@) is Some && denotes(node, parsed(inp@)->0),
            None => parsed(inp@) is None,
        },
{
    let len = inp.unicode_len();
    match parse_expr(inp, len, 0) {
        Some((node, end)) => if end == len {
            Some(node)
        } else {
            None
        },
        None => None,
    }
}

} // verus!
