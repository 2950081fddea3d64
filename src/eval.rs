use vstd::prelude::*;
use crate::ast::{copy_list, copy_names, lemma_nodes_of, lemma_nodes_of_push, names_of, node_of, nodes_of, ASTKind, Node, AST};

verus! {

/// The deepest nesting of function calls that evaluation allows.
pub const MAX_DEPTH: u64 = 100;

/// A runtime value. A function value names an entry of the evaluator's table
/// of closures.
#[derive(Clone, Copy, Debug, PartialEq, Eq, Structural)]
pub enum Object {
    Integer(i32),
    Bool(bool),
    FnDef(usize),
    Null,
}

/// Why evaluation failed.
#[derive(Clone, Copy, Debug, PartialEq, Eq, Structural)]
pub enum EvalError {
    /// An operator was applied to values it does not take.
    TypeError,
    /// A name is unbound, or a called name is bound to no function.
    NameError,
    /// An integer result does not fit in 32 bits.
    Overflow,
    /// Calls nested deeper than the evaluator allows.
    DepthExceeded,
}

/// The binary operators.
#[derive(Clone, Copy, Debug, PartialEq, Eq, Structural)]
pub enum BinOp {
    Add,
    Sub,
    Mul,
    Lt,
    Le,
}

/// One scope: its bindings, newest last, and the scope it was made in.
pub struct Scope {
    pub vars: Seq<(Seq<char>, Object)>,
    pub parent: Option<nat>,
}

/// A closure: parameter names, body, and the scope it was created in.
pub struct FuncV {
    pub params: Seq<Seq<char>>,
    pub body: Seq<Node>,
    pub env: nat,
}

/// The evaluator's state: every scope ever made and every closure ever made.
pub struct State {
    pub envs: Seq<Scope>,
    pub funcs: Seq<FuncV>,
}

/// The newest binding of `name` among `vars`.
pub open spec fn find_local(vars: Seq<(Seq<char>, Object)>, name: Seq<char>) -> Option<Object>
    decreases vars.len(),
{
    if vars.len() == 0 {
        None
    } else if vars.last().0 == name {
        Some(vars.last().1)
    } else {
        find_local(vars.drop_last(), name)
    }
}

/// The value of `name` seen from scope `e`: its binding there, else its
/// value seen from the scope that `e` was made in.
pub open spec fn lookup(envs: Seq<Scope>, e: nat, name: Seq<char>) -> Option<Object>
    decreases e,
{
    if e >= envs.len() {
        None
    } else {
        match find_local(envs[e as int].vars, name) {
            Some(v) => Some(v),
            None => match envs[e as int].parent {
                Some(p) => if p < e {
                    lookup(envs, p, name)
                } else {
                    None
                },
                None => None,
            },
        }
    }
}

/// Whether a value counts as true in a condition: all but `0`, `false` and null.
pub open spec fn truthy(v: Object) -> bool {
    !(v == Object::Integer(0) || v == Object::Bool(false) || v == Object::Null)
}

/// An `i32` result, or `Overflow` when the exact value does not fit.
pub open spec fn int_result(v: int) -> Result<Object, EvalError> {
    if i32::MIN <= v <= i32::MAX {
        Ok(Object::Integer(v as i32))
    } else {
        Err(EvalError::Overflow)
    }
}

/// An operator applied to two values: both must be integers.
pub open spec fn binary(op: BinOp, l: Object, r: Object) -> Result<Object, EvalError> {
    match (l, r) {
        (Object::Integer(a), Object::Integer(b)) => match op {
            BinOp::Add => int_result(a + b),
            BinOp::Sub => int_result(a - b),
            BinOp::Mul => int_result(a * b),
            BinOp::Lt => Ok(Object::Bool(a < b)),
            BinOp::Le => Ok(Object::Bool(a <= b)),
        },
        _ => Err(EvalError::TypeError),
    }
}

/// The value of a statement list: that of its last statement, null if empty.
pub open spec fn last_or_null(vs: Seq<Object>) -> Object {
    if vs.len() == 0 {
        Object::Null
    } else {
        vs.last()
    }
}

/// `st` with `name` bound to `v` in scope `e`.
pub open spec fn bind(st: State, e: nat, name: Seq<char>, v: Object) -> State {
    if e < st.envs.len() {
        State {
            envs: st.envs.update(
                e as int,
                Scope { vars: st.envs[e as int].vars.push((name, v)), parent: st.envs[e as int].parent },
            ),
            funcs: st.funcs,
        }
    } else {
        st
    }
}

/// Parameters paired with arguments by position; extra ones on either side
/// are dropped.
pub open spec fn bind_params(params: Seq<Seq<char>>, vals: Seq<Object>) -> Seq<(Seq<char>, Object)> {
    Seq::new(
        if params.len() < vals.len() { params.len() } else { vals.len() },
        |j: int| (params[j], vals[j]),
    )
}

/// The scope of a call of closure `i` under the name `name`: the name bound
/// to the closure itself, then the parameters, inside the closure's scope.
pub open spec fn call_scope(name: Seq<char>, i: nat, f: FuncV, vals: Seq<Object>) -> Scope {
    Scope {
        vars: seq![(name, Object::FnDef(i as usize))] + bind_params(f.params, vals),
        parent: Some(f.env),
    }
}

/// The outcome of evaluating `n` in scope `env` from state `st`, with calls
/// allowed to nest `fuel` deep: its value or error, and the state after it.
///
/// - Operators take integers; `+`, `-` and `*` fail with `Overflow` when the
///   exact result does not fit in an `i32`.
/// - `let` binds in the current scope and gives the bound value.
/// - `return` gives the value of its expression; it does not leave the
///   enclosing function early.
/// - A block runs its statements in the current scope and gives the value of
///   the last one, or null when it is empty.
/// - A function literal makes a closure over the current scope.
/// - A call evaluates its arguments first, then finds the closure bound to
///   the called name, and runs its body in a new scope inside the closure's
///   scope, where the name is bound to the closure and the parameters to the
///   arguments by position; extra arguments, or extra parameters, are dropped.
/// - Every failure stops the evaluation at once.
pub open spec fn eval_node(fuel: nat, n: Node, env: nat, st: State) -> (Result<Object, EvalError>, State)
    decreases fuel, n,
{
    match n {
        Node::Int(i) => (Ok(Object::Integer(i)), st),
        Node::Bool(b) => (Ok(Object::Bool(b)), st),
        Node::Ident(x) => match lookup(st.envs, env, x) {
            Some(v) => (Ok(v), st),
            None => (Err(EvalError::NameError), st),
        },
        Node::Add(l, r) => {
            let (a, s1) = eval_node(fuel, *l, env, st);
            match a {
                Err(e) => (Err(e), s1),
                Ok(a) => {
                    let (b, s2) = eval_node(fuel, *r, env, s1);
                    match b {
                        Err(e) => (Err(e), s2),
                        Ok(b) => (binary(BinOp::Add, a, b), s2),
                    }
                },
            }
        },
        Node::Minus(l, r) => {
            let (a, s1) = eval_node(fuel, *l, env, st);
            match a {
                Err(e) => (Err(e), s1),
                Ok(a) => {
                    let (b, s2) = eval_node(fuel, *r, env, s1);
                    match b {
                        Err(e) => (Err(e), s2),
                        Ok(b) => (binary(BinOp::Sub, a, b), s2),
                    }
                },
            }
        },
        Node::Multi(l, r) => {
            let (a, s1) = eval_node(fuel, *l, env, st);
            match a {
                Err(e) => (Err(e), s1),
                Ok(a) => {
                    let (b, s2) = eval_node(fuel, *r, env, s1);
                    match b {
                        Err(e) => (Err(e), s2),
                        Ok(b) => (binary(BinOp::Mul, a, b), s2),
                    }
                },
            }
        },
        Node::LT(l, r) => {
            let (a, s1) = eval_node(fuel, *l, env, st);
            match a {
                Err(e) => (Err(e), s1),
                Ok(a) => {
                    let (b, s2) = eval_node(fuel, *r, env, s1);
                    match b {
                        Err(e) => (Err(e), s2),
                        Ok(b) => (binary(BinOp::Lt, a, b), s2),
                    }
                },
            }
        },
        Node::LTE(l, r) => {
            let (a, s1) = eval_node(fuel, *l, env, st);
            match a {
                Err(e) => (Err(e), s1),
                Ok(a) => {
                    let (b, s2) = eval_node(fuel, *r, env, s1);
                    match b {
                        Err(e) => (Err(e), s2),
                        Ok(b) => (binary(BinOp::Le, a, b), s2),
                    }
                },
            }
        },
        Node::Let(x, e) => {
            let (a, s1) = eval_node(fuel, *e, env, st);
            match a {
                Err(err) => (Err(err), s1),
                Ok(v) => (Ok(v), bind(s1, env, x, v)),
            }
        },
        Node::Return(e) => eval_node(fuel, *e, env, st),
        Node::Compound(stmts) => {
            let (a, s1) = eval_seq(fuel, stmts, env, st);
            match a {
                Err(e) => (Err(e), s1),
                Ok(vs) => (Ok(last_or_null(vs)), s1),
            }
        },
        Node::If(c, t, alt) => {
            let (a, s1) = eval_node(fuel, *c, env, st);
            match a {
                Err(e) => (Err(e), s1),
                Ok(v) => if truthy(v) {
                    eval_node(fuel, *t, env, s1)
                } else {
                    match alt {
                        Some(alt) => eval_node(fuel, *alt, env, s1),
                        None => (Ok(Object::Null), s1),
                    }
                },
            }
        },
        Node::FnDef(params, body) => (
            Ok(Object::FnDef(st.funcs.len() as usize)),
            State { envs: st.envs, funcs: st.funcs.push(FuncV { params, body, env }) },
        ),
        Node::FnCall(name, args) => {
            let (a, s1) = eval_seq(fuel, args, env, st);
            match a {
                Err(e) => (Err(e), s1),
                Ok(vals) => match lookup(s1.envs, env, name) {
                    Some(Object::FnDef(i)) => {
                        if i >= s1.funcs.len() {
                            (Err(EvalError::NameError), s1)
                        } else if fuel == 0 {
                            (Err(EvalError::DepthExceeded), s1)
                        } else {
                            let f = s1.funcs[i as int];
                            let s2 = State {
                                envs: s1.envs.push(call_scope(name, i as nat, f, vals)),
                                funcs: s1.funcs,
                            };
                            let (b, s3) = eval_seq((fuel - 1) as nat, f.body, s1.envs.len(), s2);
                            match b {
                                Err(e) => (Err(e), s3),
                                Ok(vs) => (Ok(last_or_null(vs)), s3),
                            }
                        }
                    },
                    _ => (Err(EvalError::NameError), s1),
                },
            }
        },
    }
}

/// The outcome of evaluating `ns` in order in scope `env`: all their values,
/// or the first error, and the state after them.
pub open spec fn eval_seq(fuel: nat, ns: Seq<Node>, env: nat, st: State) -> (Result<Seq<Object>, EvalError>, State)
    decreases fuel, ns,
{
    if ns.len() == 0 {
        (Ok(Seq::empty()), st)
    } else {
        let (a, s1) = eval_seq(fuel, ns.subrange(0, ns.len() - 1), env, st);
        match a {
            Err(e) => (Err(e), s1),
            Ok(vs) => {
                let (b, s2) = eval_node(fuel, ns[ns.len() - 1], env, s1);
                match b {
                    Err(e) => (Err(e), s2),
                    Ok(v) => (Ok(vs.push(v)), s2),
                }
            },
        }
    }
}

/// `eval_seq` on a list with one more node at its end.
pub proof fn lemma_eval_seq_push(fuel: nat, ns: Seq<Node>, n: Node, env: nat, st: State)
    ensures
        eval_seq(fuel, ns.push(n), env, st) == ({
            let (a, s1) = eval_seq(fuel, ns, env, st);
            match a {
                Err(e) => (Err(e), s1),
                Ok(vs) => {
                    let (b, s2) = eval_node(fuel, n, env, s1);
                    match b {
                        Err(e) => (Err(e), s2),
                        Ok(v) => (Ok(vs.push(v)), s2),
                    }
                },
            }
        }),
{
    assert(ns.push(n).subrange(0, ns.len() as int) =~= ns);
}

/// Once a prefix of a list fails, the whole list fails the same way.
pub proof fn lemma_eval_seq_err(fuel: nat, ns: Seq<Node>, k: int, m: int, env: nat, st: State)
    requires
        0 <= k <= m <= ns.len(),
        eval_seq(fuel, ns.subrange(0, k), env, st).0 is Err,
    ensures
        eval_seq(fuel, ns.subrange(0, m), env, st) == eval_seq(fuel, ns.subrange(0, k), env, st),
    decreases m - k,
{
    if m > k {
        lemma_eval_seq_err(fuel, ns, k, m - 1, env, st);
        assert(ns.subrange(0, m).subrange(0, m - 1) =~= ns.subrange(0, m - 1));
    }
}

/// Adding two integer literals gives their sum, and multiplying them gives
/// their product, when the exact result fits in an `i32`; otherwise the
/// evaluation fails with `Overflow`. The state is left as it was.
pub proof fn law_add_mul_literals(fuel: nat, a: i32, b: i32, env: nat, st: State)
    ensures
        eval_node(fuel, Node::Add(Box::new(Node::Int(a)), Box::new(Node::Int(b))), env, st) == (
            if i32::MIN <= a + b <= i32::MAX {
                Ok(Object::Integer((a + b) as i32))
            } else {
                Err(EvalError::Overflow)
            },
            st,
        ),
        eval_node(fuel, Node::Multi(Box::new(Node::Int(a)), Box::new(Node::Int(b))), env, st) == (
            if i32::MIN <= a * b <= i32::MAX {
                Ok(Object::Integer((a * b) as i32))
            } else {
                Err(EvalError::Overflow)
            },
            st,
        ),
{
    reveal_with_fuel(eval_node, 2);
}

/// A condition chooses a branch by truthiness: `true` takes the first
/// branch, `false` without an `else` gives null, and `0` takes the `else`
/// branch.
pub proof fn law_if_truthiness(fuel: nat, x: Node, y: Node, env: nat, st: State)
    ensures
        eval_node(fuel, Node::If(Box::new(Node::Bool(true)), Box::new(x), None), env, st)
            == eval_node(fuel, x, env, st),
        eval_node(fuel, Node::If(Box::new(Node::Bool(false)), Box::new(x), None), env, st) == (
            Ok::<Object, EvalError>(Object::Null),
            st,
        ),
        eval_node(fuel, Node::If(Box::new(Node::Int(0)), Box::new(x), Some(Box::new(y))), env, st)
            == eval_node(fuel, y, env, st),
{
    assert(eval_node(fuel, Node::Bool(true), env, st) == (Ok::<Object, EvalError>(Object::Bool(true)), st));
    assert(eval_node(fuel, Node::Bool(false), env, st) == (Ok::<Object, EvalError>(Object::Bool(false)), st));
    assert(eval_node(fuel, Node::Int(0), env, st) == (Ok::<Object, EvalError>(Object::Integer(0)), st));
}

/// Evaluation never removes a scope.
pub proof fn lemma_envs_grow(fuel: nat, n: Node, env: nat, st: State)
    ensures
        st.envs.len() <= eval_node(fuel, n, env, st).1.envs.len(),
    decreases fuel, n,
{
    match n {
        Node::Add(l, r) => {
            lemma_envs_grow(fuel, *l, env, st);
            lemma_envs_grow(fuel, *r, env, eval_node(fuel, *l, env, st).1);
        },
        Node::Minus(l, r) => {
            lemma_envs_grow(fuel, *l, env, st);
            lemma_envs_grow(fuel, *r, env, eval_node(fuel, *l, env, st).1);
        },
        Node::Multi(l, r) => {
            lemma_envs_grow(fuel, *l, env, st);
            lemma_envs_grow(fuel, *r, env, eval_node(fuel, *l, env, st).1);
        },
        Node::LT(l, r) => {
            lemma_envs_grow(fuel, *l, env, st);
            lemma_envs_grow(fuel, *r, env, eval_node(fuel, *l, env, st).1);
        },
        Node::LTE(l, r) => {
            lemma_envs_grow(fuel, *l, env, st);
            lemma_envs_grow(fuel, *r, env, eval_node(fuel, *l, env, st).1);
        },
        Node::Let(_, e) => {
            lemma_envs_grow(fuel, *e, env, st);
        },
        Node::Return(e) => {
            lemma_envs_grow(fuel, *e, env, st);
        },
        Node::Compound(stmts) => {
            lemma_envs_grow_seq(fuel, stmts, env, st);
        },
        Node::If(c, t, alt) => {
            lemma_envs_grow(fuel, *c, env, st);
            let s1 = eval_node(fuel, *c, env, st).1;
            lemma_envs_grow(fuel, *t, env, s1);
            if let Some(alt) = alt {
                lemma_envs_grow(fuel, *alt, env, s1);
            }
        },
        Node::FnCall(name, args) => {
            lemma_envs_grow_seq(fuel, args, env, st);
            let (a, s1) = eval_seq(fuel, args, env, st);
            if let Ok(vals) = a {
                if let Some(Object::FnDef(i)) = lookup(s1.envs, env, name) {
                    if i < s1.funcs.len() && fuel > 0 {
                        let f = s1.funcs[i as int];
                        let s2 = State {
                            envs: s1.envs.push(call_scope(name, i as nat, f, vals)),
                            funcs: s1.funcs,
                        };
                        lemma_envs_grow_seq((fuel - 1) as nat, f.body, s1.envs.len(), s2);
                    }
                }
            }
        },
        _ => {},
    }
}

/// Evaluating a list never removes a scope.
pub proof fn lemma_envs_grow_seq(fuel: nat, ns: Seq<Node>, env: nat, st: State)
    ensures
        st.envs.len() <= eval_seq(fuel, ns, env, st).1.envs.len(),
    decreases fuel, ns,
{
    if ns.len() > 0 {
        let pre = ns.subrange(0, ns.len() - 1);
        lemma_envs_grow_seq(fuel, pre, env, st);
        lemma_envs_grow(fuel, ns[ns.len() - 1], env, eval_seq(fuel, pre, env, st).1);
    }
}

/// A `let` gives the value of its expression, and reading the name
/// afterwards in the same scope gives that value and changes nothing.
pub proof fn law_let_then_read(fuel: nat, x: Seq<char>, e: Node, env: nat, st: State)
    requires
        env < st.envs.len(),
    ensures
        ({
            let (r, s1) = eval_node(fuel, Node::Let(x, Box::new(e)), env, st);
            &&& r == eval_node(fuel, e, env, st).0
            &&& r is Ok ==> eval_node(fuel, Node::Ident(x), env, s1) == (r, s1)
        }),
{
    let (r, s0) = eval_node(fuel, e, env, st);
    if let Ok(v) = r {
        let s1 = bind(s0, env, x, v);
        lemma_envs_grow(fuel, e, env, st);
        assert(s1.envs[env as int].vars.last() == (x, v));
        assert(find_local(s1.envs[env as int].vars, x) == Some(v));
    }
}

/// Reading a name that is bound nowhere in sight fails with `NameError`.
pub proof fn law_unbound_name(fuel: nat, x: Seq<char>, env: nat, st: State)
    requires
        lookup(st.envs, env, x) is None,
    ensures
        eval_node(fuel, Node::Ident(x), env, st) == (Err::<Object, EvalError>(EvalError::NameError), st),
{
}

/// Arithmetic where either operand evaluates to a boolean fails with
/// `TypeError`.
pub proof fn law_bool_operand(fuel: nat, l: Node, r: Node, env: nat, st: State)
    requires
        eval_node(fuel, l, env, st).0 is Ok,
        eval_node(fuel, r, env, eval_node(fuel, l, env, st).1).0 is Ok,
        eval_node(fuel, l, env, st).0->Ok_0 is Bool || eval_node(
            fuel,
            r,
            env,
            eval_node(fuel, l, env, st).1,
        ).0->Ok_0 is Bool,
    ensures
        eval_node(fuel, Node::Add(Box::new(l), Box::new(r)), env, st).0 == Err::<Object, EvalError>(
            EvalError::TypeError,
        ),
        eval_node(fuel, Node::Minus(Box::new(l), Box::new(r)), env, st).0 == Err::<Object, EvalError>(
            EvalError::TypeError,
        ),
        eval_node(fuel, Node::Multi(Box::new(l), Box::new(r)), env, st).0 == Err::<Object, EvalError>(
            EvalError::TypeError,
        ),
{
}

/// A scope of bindings from names to values.
pub struct Environment {
    store: Vec<(String, Object)>,
    parent: Option<usize>,
}

impl View for Environment {
    type V = Scope;

    closed spec fn view(&self) -> Scope {
        Scope {
            vars: self.store@.map_values(|b: (String, Object)| (b.0@, b.1)),
            parent: match self.parent {
                Some(p) => Some(p as nat),
                None => None,
            },
        }
    }
}

impl Environment {
    pub fn new() -> (r: Environment)
        ensures
            r@ == (Scope { vars: Seq::empty(), parent: None }),
    {
        let r = Environment { store: Vec::new(), parent: None };
        assert(r@.vars =~= Seq::empty());
        r
    }

    /// The newest binding of `name` in this scope alone.
    pub fn get(&self, name: &String) -> (r: Option<Object>)
        ensures
            r == find_local(self@.vars, name@),
    {
        let mut i = self.store.len();
        assert(self@.vars.subrange(0, i as int) =~= self@.vars);
        while i > 0
            invariant
                i <= self.store@.len(),
                find_local(self@.vars, name@) == find_local(self@.vars.subrange(0, i as int), name@),
            decreases i,
        {
            let ghost sub = self@.vars.subrange(0, i as int);
            assert(sub.drop_last() =~= self@.vars.subrange(0, i - 1));
            if self.store[i - 1].0 == *name {
                return Some(self.store[i - 1].1);
            }
            i = i - 1;
        }
        None
    }

    /// Binds `name` to `value` in this scope, over any earlier binding, and
    /// returns the value.
    pub fn set(&mut self, name: String, value: Object) -> (r: Object)
        ensures
            r == value,
            final(self)@ == (Scope { vars: old(self)@.vars.push((name@, value)), parent: old(self)@.parent }),
    {
        let ghost n = name@;
        self.store.push((name, value));
        assert(self@.vars =~= old(self)@.vars.push((n, value)));
        value
    }
}

/// A closure: what a function literal evaluates to.
struct Closure {
    args: Vec<String>,
    stmts: Vec<AST>,
    env: usize,
}

impl View for Closure {
    type V = FuncV;

    closed spec fn view(&self) -> FuncV {
        FuncV { params: names_of(self.args@), body: nodes_of(self.stmts@), env: self.env as nat }
    }
}

/// A tree-walking evaluator: the scopes and closures made so far, the first
/// scope being the global one.
pub struct Evaluator {
    envs: Vec<Environment>,
    funcs: Vec<Closure>,
}

impl View for Evaluator {
    type V = State;

    closed spec fn view(&self) -> State {
        State {
            envs: self.envs@.map_values(|e: Environment| e@),
            funcs: self.funcs@.map_values(|f: Closure| f@),
        }
    }
}

/// The value of an operator applied to two values.
pub fn apply(op: BinOp, l: Object, r: Object) -> (v: Result<Object, EvalError>)
    ensures
        v == binary(op, l, r),
{
    match (l, r) {
        (Object::Integer(a), Object::Integer(b)) => {
            let (a, b) = (a as i64, b as i64);
            let x = match op {
                BinOp::Add => a + b,
                BinOp::Sub => a - b,
                BinOp::Mul => {
                    assert(-0x4000_0000_0000_0000 <= a * b <= 0x4000_0000_0000_0000) by (nonlinear_arith)
                        requires
                            -0x8000_0000 <= a <= 0x7fff_ffff,
                            -0x8000_0000 <= b <= 0x7fff_ffff,
                    ;
                    a * b
                },
                BinOp::Lt => return Ok(Object::Bool(a < b)),
                BinOp::Le => return Ok(Object::Bool(a <= b)),
            };
            if x < i32::MIN as i64 || x > i32::MAX as i64 {
                Err(EvalError::Overflow)
            } else {
                Ok(Object::Integer(x as i32))
            }
        },
        _ => Err(EvalError::TypeError),
    }
}

/// Whether a value counts as true in a condition.
pub fn is_truthy(v: Object) -> (r: bool)
    ensures
        r == truthy(v),
{
    match v {
        Object::Integer(0) | Object::Bool(false) | Object::Null => false,
        _ => true,
    }
}

fn last_value(vs: &Vec<Object>) -> (r: Object)
    ensures
        r == last_or_null(vs@),
{
    if vs.len() == 0 {
        Object::Null
    } else {
        vs[vs.len() - 1]
    }
}

impl Evaluator {
    /// Every scope was made after the one it was made in, and every closure
    /// was made in an existing scope.
    pub closed spec fn wf(&self) -> bool {
        &&& self.envs@.len() > 0
        &&& forall|e: int|
            0 <= e < self.envs@.len() ==> ((#[trigger] self.envs@[e]).parent matches Some(p) ==> p < e)
        &&& forall|i: int| 0 <= i < self.funcs@.len() ==> #[trigger] self.funcs@[i].env < self.envs@.len()
    }

    /// An evaluator with an empty global scope and no closures.
    pub fn new() -> (r: Evaluator)
        ensures
            r.wf(),
            r@.envs == seq![Scope { vars: Seq::empty(), parent: None }],
            r@.funcs.len() == 0,
    {
        let mut envs: Vec<Environment> = Vec::new();
        envs.push(Environment::new());
        let r = Evaluator { envs, funcs: Vec::new() };
        assert(r@.envs =~= seq![Scope { vars: Seq::empty(), parent: None }]);
        r
    }

    /// The global scope.
    pub fn global_env(&self) -> (r: usize)
        requires
            self.wf(),
        ensures
            r == 0,
            r < self@.envs.len(),
    {
        0
    }

    /// The value of `name` seen from scope `env`.
    fn lookup(&self, env: usize, name: &String) -> (r: Option<Object>)
        requires
            self.wf(),
            env < self@.envs.len(),
        ensures
            r == lookup(self@.envs, env as nat, name@),
    {
        let mut e = env;
        loop
            invariant
                self.wf(),
                e < self@.envs.len(),
                lookup(self@.envs, e as nat, name@) == lookup(self@.envs, env as nat, name@),
            decreases e,
        {
            match self.envs[e].get(name) {
                Some(v) => return Some(v),
                None => {},
            }
            assert(self.envs@[e as int]@ == self@.envs[e as int]);
            match self.envs[e].parent {
                Some(p) => {
                    e = p;
                },
                None => return None,
            }
        }
    }


    /// Binds `name` to `v` in scope `env`.
    fn bind_var(&mut self, env: usize, name: String, v: Object)
        requires
            old(self).wf(),
            env < old(self)@.envs.len(),
        ensures
            final(self).wf(),
            final(self)@ == bind(old(self)@, env as nat, name@, v),
    {
        let ghost n = name@;
        let ghost envs1 = self.envs@;
        self.envs[env].set(name, v);
        proof {
            assert(self.envs@ == envs1.update(env as int, self.envs@[env as int]));
            assert(self@.envs =~= bind(old(self)@, env as nat, n, v).envs);
            assert forall|e: int| 0 <= e < self.envs@.len() implies ((#[trigger] self.envs@[e]).parent matches Some(p) ==> p < e) by {
                if e != env {
                    assert(self.envs@[e] == envs1[e]);
                }
            }
        }
    }

    /// Adds a closure with these parameters and body, made in scope `env`,
    /// and returns its index.
    fn make_closure(&mut self, args: &Vec<String>, stmts: &Vec<AST>, env: usize) -> (id: usize)
        requires
            old(self).wf(),
            env < old(self)@.envs.len(),
        ensures
            final(self).wf(),
            id == old(self)@.funcs.len(),
            final(self)@ == (State {
                envs: old(self)@.envs,
                funcs: old(self)@.funcs.push(
                    FuncV { params: names_of(args@), body: nodes_of(stmts@), env: env as nat },
                ),
            }),
    {
        let id = self.funcs.len();
        let c = Closure { args: copy_names(args), stmts: copy_list(stmts), env };
        self.funcs.push(c);
        assert(self@.funcs =~= old(self)@.funcs.push(
            FuncV { params: names_of(args@), body: nodes_of(stmts@), env: env as nat },
        ));
        id
    }

    /// The scope of a call of closure `i` under `name` with arguments `vals`.
    fn call_scope(&self, name: &String, i: usize, vals: &Vec<Object>) -> (scope: Environment)
        requires
            i < self@.funcs.len(),
        ensures
            scope@ == call_scope(name@, i as nat, self@.funcs[i as int], vals@),
    {
        let ghost f = self@.funcs[i as int];
        let mut scope = Environment { store: Vec::new(), parent: Some(self.funcs[i].env) };
        scope.set(name.clone(), Object::FnDef(i));
        let n = if self.funcs[i].args.len() < vals.len() {
            self.funcs[i].args.len()
        } else {
            vals.len()
        };
        let mut j: usize = 0;
        while j < n
            invariant
                f == self@.funcs[i as int],
                i < self.funcs@.len(),
                n <= self.funcs@[i as int].args@.len(),
                n <= vals@.len(),
                n == bind_params(f.params, vals@).len(),
                j <= n,
                scope@.parent == Some(f.env),
                scope@.vars.len() == j + 1,
                scope@.vars[0] == (name@, Object::FnDef(i)),
                forall|k: int| 1 <= k <= j ==> #[trigger] scope@.vars[k] == (f.params[k - 1], vals@[k - 1]),
            decreases n - j,
        {
            scope.set(self.funcs[i].args[j].clone(), vals[j]);
            j = j + 1;
        }
        assert(scope@.vars =~= call_scope(name@, i as nat, f, vals@).vars);
        scope
    }

    /// Evaluates `node` in scope `env`, with calls allowed to nest `fuel` deep.
    fn eval_in(&mut self, node: &AST, env: usize, fuel: u64) -> (r: Result<Object, EvalError>)
        requires
            old(self).wf(),
            env < old(self)@.envs.len(),
        ensures
            final(self).wf(),
            old(self)@.envs.len() <= final(self)@.envs.len(),
            (r, final(self)@) == eval_node(fuel as nat, node@, env as nat, old(self)@),
        decreases fuel, node, 1int,
    {
        match &node.kind {
            ASTKind::Int(i) => Ok(Object::Integer(*i)),
            ASTKind::Bool(b) => Ok(Object::Bool(*b)),
            ASTKind::Ident(x) => match self.lookup(env, x) {
                Some(v) => Ok(v),
                None => Err(EvalError::NameError),
            },
            ASTKind::Add(..) | ASTKind::Minus(..) | ASTKind::Multi(..) | ASTKind::LT(..) | ASTKind::LTE(
                ..,
            ) => self.eval_binary(node, env, fuel),
            ASTKind::Let { name, expr } => {
                let v = match self.eval_in(expr, env, fuel) {
                    Ok(v) => v,
                    Err(e) => return Err(e),
                };
                self.bind_var(env, name.clone(), v);
                Ok(v)
            },
            ASTKind::Return(e) => self.eval_in(e, env, fuel),
            ASTKind::Compound(stmts) => match self.eval_list(stmts, env, fuel) {
                Ok(vs) => Ok(last_value(&vs)),
                Err(e) => Err(e),
            },
            ASTKind::If { cond, stmt, else_stmt } => {
                let v = match self.eval_in(cond, env, fuel) {
                    Ok(v) => v,
                    Err(e) => return Err(e),
                };
                if is_truthy(v) {
                    self.eval_in(stmt, env, fuel)
                } else {
                    match else_stmt {
                        Some(alt) => self.eval_in(alt, env, fuel),
                        None => Ok(Object::Null),
                    }
                }
            },
            ASTKind::FnDef { args, stmts } => {
                let id = self.make_closure(args, stmts, env);
                Ok(Object::FnDef(id))
            },
            ASTKind::FnCall { .. } => self.eval_call(node, env, fuel),
        }
    }

    /// Evaluates an operator node: both operands in order, then the operator.
    fn eval_binary(&mut self, node: &AST, env: usize, fuel: u64) -> (r: Result<Object, EvalError>)
        requires
            old(self).wf(),
            env < old(self)@.envs.len(),
            node.kind is Add || node.kind is Minus || node.kind is Multi || node.kind is LT
                || node.kind is LTE,
        ensures
            final(self).wf(),
            old(self)@.envs.len() <= final(self)@.envs.len(),
            (r, final(self)@) == eval_node(fuel as nat, node@, env as nat, old(self)@),
        decreases fuel, node, 0int,
    {
        let (l, r, op) = match &node.kind {
            ASTKind::Add(l, r) => (l, r, BinOp::Add),
            ASTKind::Minus(l, r) => (l, r, BinOp::Sub),
            ASTKind::Multi(l, r) => (l, r, BinOp::Mul),
            ASTKind::LT(l, r) => (l, r, BinOp::Lt),
            ASTKind::LTE(l, r) => (l, r, BinOp::Le),
            _ => return Err(EvalError::TypeError),
        };
        let a = match self.eval_in(l, env, fuel) {
            Ok(a) => a,
            Err(e) => return Err(e),
        };
        let b = match self.eval_in(r, env, fuel) {
            Ok(b) => b,
            Err(e) => return Err(e),
        };
        apply(op, a, b)
    }

    /// Evaluates a call: the arguments in order, then the body of the closure
    /// that the called name is bound to, in a new scope inside the closure's.
    fn eval_call(&mut self, node: &AST, env: usize, fuel: u64) -> (r: Result<Object, EvalError>)
        requires
            old(self).wf(),
            env < old(self)@.envs.len(),
            node.kind is FnCall,
        ensures
            final(self).wf(),
            old(self)@.envs.len() <= final(self)@.envs.len(),
            (r, final(self)@) == eval_node(fuel as nat, node@, env as nat, old(self)@),
        decreases fuel, node, 0int,
    {
        let (name, args) = match &node.kind {
            ASTKind::FnCall { name, args } => (name, args),
            _ => return Err(EvalError::NameError),
        };
        let vals = match self.eval_list(args, env, fuel) {
            Ok(vals) => vals,
            Err(e) => return Err(e),
        };
        let i = match self.lookup(env, name) {
            Some(Object::FnDef(i)) => i,
            _ => return Err(EvalError::NameError),
        };
        if i >= self.funcs.len() {
            return Err(EvalError::NameError);
        }
        if fuel == 0 {
            return Err(EvalError::DepthExceeded);
        }
        let ghost s1 = self@;
        let ghost f = self@.funcs[i as int];
        let body = copy_list(&self.funcs[i].stmts);
        let scope = self.call_scope(name, i, &vals);
        let k = self.envs.len();
        let ghost envs1 = self.envs@;
        self.envs.push(scope);
        assert(self@.envs =~= s1.envs.push(call_scope(name@, i as nat, f, vals@)));
        assert(self.wf()) by {
            assert forall|e: int| 0 <= e < self.envs@.len() implies ((#[trigger] self.envs@[e]).parent matches Some(p) ==> p < e) by {
                if e < k {
                    assert(self.envs@[e] == envs1[e]);
                }
            }
        }
        match self.eval_list(&body, k, fuel - 1) {
            Ok(vs) => Ok(last_value(&vs)),
            Err(e) => Err(e),
        }
    }

    /// Evaluates `nodes` in order in scope `env`, stopping at the first error.
    fn eval_list(&mut self, nodes: &Vec<AST>, env: usize, fuel: u64) -> (r: Result<Vec<Object>, EvalError>)
        requires
            old(self).wf(),
            env < old(self)@.envs.len(),
        ensures
            final(self).wf(),
            old(self)@.envs.len() <= final(self)@.envs.len(),
            final(self)@ == eval_seq(fuel as nat, nodes_of(nodes@), env as nat, old(self)@).1,
            match eval_seq(fuel as nat, nodes_of(nodes@), env as nat, old(self)@).0 {
                Ok(vs) => r is Ok && r->Ok_0@ == vs,
                Err(e) => r == Err::<Vec<Object>, EvalError>(e),
            },
        decreases fuel, nodes, 2int,
    {
        let mut vals: Vec<Object> = Vec::new();
        let mut i: usize = 0;
        assert(nodes_of(nodes@.subrange(0, 0)) =~= Seq::empty());
        while i < nodes.len()
            invariant
                self.wf(),
                env < self@.envs.len(),
                old(self)@.envs.len() <= self@.envs.len(),
                i <= nodes@.len(),
                (Ok::<Seq<Object>, EvalError>(vals@), self@) == eval_seq(
                    fuel as nat,
                    nodes_of(nodes@.subrange(0, i as int)),
                    env as nat,
                    old(self)@,
                ),
            decreases nodes.len() - i,
        {
            proof {
                let pre = nodes@.subrange(0, i as int);
                assert(pre.push(nodes@[i as int]) =~= nodes@.subrange(0, i + 1));
                lemma_nodes_of_push(pre, nodes@[i as int]);
                lemma_eval_seq_push(fuel as nat, nodes_of(pre), node_of(nodes@[i as int]), env as nat, old(self)@);
            }
            match self.eval_in(&nodes[i], env, fuel) {
                Ok(v) => {
                    vals.push(v);
                },
                Err(e) => {
                    proof {
                        let ns = nodes_of(nodes@);
                        lemma_nodes_of(nodes@);
                        lemma_nodes_of(nodes@.subrange(0, i + 1));
                        assert(ns.subrange(0, i + 1) =~= nodes_of(nodes@.subrange(0, i + 1)));
                        assert(ns.subrange(0, ns.len() as int) =~= ns);
                        lemma_eval_seq_err(fuel as nat, ns, i + 1, ns.len() as int, env as nat, old(self)@);
                    }
                    return Err(e);
                },
            }
            i = i + 1;
        }
        assert(nodes@.subrange(0, nodes@.len() as int) =~= nodes@);
        Ok(vals)
    }

    /// Evaluates `node` in scope `env`, with calls nested at most
    /// `MAX_DEPTH` deep.
    pub fn eval(&mut self, node: AST, env: usize) -> (r: Result<Object, EvalError>)
        requires
            old(self).wf(),
            env < old(self)@.envs.len(),
        ensures
            final(self).wf(),
            (r, final(self)@) == eval_node(MAX_DEPTH as nat, node@, env as nat, old(self)@),
    {
        self.eval_in(&node, env, MAX_DEPTH)
    }
}

} // verus!
