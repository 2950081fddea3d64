use vstd::prelude::*;

verus! {

/// The kind of a syntax-tree node, with the children it owns.
#[derive(Debug, PartialEq)]
pub enum ASTKind {
    Int(i32),
    Ident(String),
    Bool(bool),
    Add(Box<AST>, Box<AST>),
    Multi(Box<AST>, Box<AST>),
    Let { name: String, expr: Box<AST> },
    Minus(Box<AST>, Box<AST>),
    LT(Box<AST>, Box<AST>),
    LTE(Box<AST>, Box<AST>),
    Return(Box<AST>),
    Compound(Vec<AST>),
    If { cond: Box<AST>, stmt: Box<AST>, else_stmt: Option<Box<AST>> },
    FnCall { name: String, args: Vec<AST> },
    FnDef { args: Vec<String>, stmts: Vec<AST> },
}

/// A node of the syntax tree.
#[derive(Debug, PartialEq)]
pub struct AST {
    pub kind: ASTKind,
}

/// The mathematical form of a syntax tree: names are character sequences and
/// child lists are sequences.
pub enum Node {
    Int(i32),
    Ident(Seq<char>),
    Bool(bool),
    Add(Box<Node>, Box<Node>),
    Multi(Box<Node>, Box<Node>),
    Let(Seq<char>, Box<Node>),
    Minus(Box<Node>, Box<Node>),
    LT(Box<Node>, Box<Node>),
    LTE(Box<Node>, Box<Node>),
    Return(Box<Node>),
    Compound(Seq<Node>),
    If(Box<Node>, Box<Node>, Option<Box<Node>>),
    FnCall(Seq<char>, Seq<Node>),
    FnDef(Seq<Seq<char>>, Seq<Node>),
}

/// The names held by a list of strings.
pub open spec fn names_of(s: Seq<String>) -> Seq<Seq<char>> {
    s.map_values(|x: String| x@)
}

/// The mathematical form of a tree.
pub open spec fn node_of(a: AST) -> Node
    decreases a,
{
    match a.kind {
        ASTKind::Int(i) => Node::Int(i),
        ASTKind::Ident(s) => Node::Ident(s@),
        ASTKind::Bool(b) => Node::Bool(b),
        ASTKind::Add(l, r) => Node::Add(Box::new(node_of(*l)), Box::new(node_of(*r))),
        ASTKind::Multi(l, r) => Node::Multi(Box::new(node_of(*l)), Box::new(node_of(*r))),
        ASTKind::Let { name, expr } => Node::Let(name@, Box::new(node_of(*expr))),
        ASTKind::Minus(l, r) => Node::Minus(Box::new(node_of(*l)), Box::new(node_of(*r))),
        ASTKind::LT(l, r) => Node::LT(Box::new(node_of(*l)), Box::new(node_of(*r))),
        ASTKind::LTE(l, r) => Node::LTE(Box::new(node_of(*l)), Box::new(node_of(*r))),
        ASTKind::Return(e) => Node::Return(Box::new(node_of(*e))),
        ASTKind::Compound(stmts) => Node::Compound(nodes_of(stmts@)),
        ASTKind::If { cond, stmt, else_stmt } => Node::If(
            Box::new(node_of(*cond)),
            Box::new(node_of(*stmt)),
            match else_stmt {
                Some(e) => Some(Box::new(node_of(*e))),
                None => None,
            },
        ),
        ASTKind::FnCall { name, args } => Node::FnCall(name@, nodes_of(args@)),
        ASTKind::FnDef { args, stmts } => Node::FnDef(names_of(args@), nodes_of(stmts@)),
    }
}

/// The mathematical form of each tree of a list, in order.
pub open spec fn nodes_of(s: Seq<AST>) -> Seq<Node>
    decreases s,
{
    if s.len() == 0 {
        Seq::empty()
    } else {
        nodes_of(s.subrange(0, s.len() - 1)).push(node_of(s[s.len() - 1]))
    }
}

impl View for AST {
    type V = Node;

    open spec fn view(&self) -> Node {
        node_of(*self)
    }
}

/// `nodes_of` maps each tree to its form, position by position.
pub proof fn lemma_nodes_of(s: Seq<AST>)
    ensures
        nodes_of(s).len() == s.len(),
        forall|i: int| 0 <= i < s.len() ==> #[trigger] nodes_of(s)[i] == node_of(s[i]),
    decreases s.len(),
{
    if s.len() > 0 {
        lemma_nodes_of(s.subrange(0, s.len() - 1));
    }
}

/// Adding a tree at the end of a list adds its form at the end of the forms.
pub proof fn lemma_nodes_of_push(s: Seq<AST>, a: AST)
    ensures
        nodes_of(s.push(a)) == nodes_of(s).push(node_of(a)),
{
    assert(s.push(a).subrange(0, s.len() as int) =~= s);
}

impl AST {
    pub fn integer(i: i32) -> (r: AST)
        ensures
            r@ == Node::Int(i),
    {
        AST { kind: ASTKind::Int(i) }
    }

    pub fn ident(s: String) -> (r: AST)
        ensures
            r@ == Node::Ident(s@),
    {
        AST { kind: ASTKind::Ident(s) }
    }

    pub fn bool(b: bool) -> (r: AST)
        ensures
            r@ == Node::Bool(b),
    {
        AST { kind: ASTKind::Bool(b) }
    }

    pub fn add(left: AST, right: AST) -> (r: AST)
        ensures
            r@ == Node::Add(Box::new(left@), Box::new(right@)),
    {
        AST { kind: ASTKind::Add(Box::new(left), Box::new(right)) }
    }

    pub fn multi(left: AST, right: AST) -> (r: AST)
        ensures
            r@ == Node::Multi(Box::new(left@), Box::new(right@)),
    {
        AST { kind: ASTKind::Multi(Box::new(left), Box::new(right)) }
    }

    pub fn minus(left: AST, right: AST) -> (r: AST)
        ensures
            r@ == Node::Minus(Box::new(left@), Box::new(right@)),
    {
        AST { kind: ASTKind::Minus(Box::new(left), Box::new(right)) }
    }

    pub fn lt(left: AST, right: AST) -> (r: AST)
        ensures
            r@ == Node::LT(Box::new(left@), Box::new(right@)),
    {
        AST { kind: ASTKind::LT(Box::new(left), Box::new(right)) }
    }

    pub fn lte(left: AST, right: AST) -> (r: AST)
        ensures
            r@ == Node::LTE(Box::new(left@), Box::new(right@)),
    {
        AST { kind: ASTKind::LTE(Box::new(left), Box::new(right)) }
    }

    pub fn let_stmt(name: String, expr: AST) -> (r: AST)
        ensures
            r@ == Node::Let(name@, Box::new(expr@)),
    {
        AST { kind: ASTKind::Let { name, expr: Box::new(expr) } }
    }

    pub fn return_stmt(expr: AST) -> (r: AST)
        ensures
            r@ == Node::Return(Box::new(expr@)),
    {
        AST { kind: ASTKind::Return(Box::new(expr)) }
    }

    pub fn compound_statement(stmts: Vec<AST>) -> (r: AST)
        ensures
            r@ == Node::Compound(nodes_of(stmts@)),
    {
        AST { kind: ASTKind::Compound(stmts) }
    }

    pub fn if_stmt(cond: AST, stmt: AST, else_stmt: Option<AST>) -> (r: AST)
        ensures
            r@ == Node::If(
                Box::new(cond@),
                Box::new(stmt@),
                match else_stmt {
                    Some(e) => Some(Box::new(e@)),
                    None => None,
                },
            ),
    {
        let else_stmt = match else_stmt {
            Some(e) => Some(Box::new(e)),
            None => None,
        };
        AST { kind: ASTKind::If { cond: Box::new(cond), stmt: Box::new(stmt), else_stmt } }
    }

    pub fn fn_call(name: String, args: Vec<AST>) -> (r: AST)
        ensures
            r@ == Node::FnCall(name@, nodes_of(args@)),
    {
        AST { kind: ASTKind::FnCall { name, args } }
    }

    pub fn fn_def(args: Vec<String>, stmts: Vec<AST>) -> (r: AST)
        ensures
            r@ == Node::FnDef(names_of(args@), nodes_of(stmts@)),
    {
        AST { kind: ASTKind::FnDef { args, stmts } }
    }

    /// A copy of the tree.
    pub fn copy(&self) -> (r: AST)
        ensures
            r@ == self@,
        decreases self,
    {
        match &self.kind {
            ASTKind::Int(i) => AST::integer(*i),
            ASTKind::Ident(s) => AST::ident(s.clone()),
            ASTKind::Bool(b) => AST::bool(*b),
            ASTKind::Add(l, r) => AST::add(l.copy(), r.copy()),
            ASTKind::Multi(l, r) => AST::multi(l.copy(), r.copy()),
            ASTKind::Let { name, expr } => AST::let_stmt(name.clone(), expr.copy()),
            ASTKind::Minus(l, r) => AST::minus(l.copy(), r.copy()),
            ASTKind::LT(l, r) => AST::lt(l.copy(), r.copy()),
            ASTKind::LTE(l, r) => AST::lte(l.copy(), r.copy()),
            ASTKind::Return(e) => AST::return_stmt(e.copy()),
            ASTKind::Compound(stmts) => AST::compound_statement(copy_list(stmts)),
            ASTKind::If { cond, stmt, else_stmt } => {
                let e = match else_stmt {
                    Some(e) => Some(e.copy()),
                    None => None,
                };
                AST::if_stmt(cond.copy(), stmt.copy(), e)
            },
            ASTKind::FnCall { name, args } => AST::fn_call(name.clone(), copy_list(args)),
            ASTKind::FnDef { args, stmts } => AST::fn_def(copy_names(args), copy_list(stmts)),
        }
    }
}

/// A copy of each tree of a list, in order.
pub fn copy_list(v: &Vec<AST>) -> (r: Vec<AST>)
    ensures
        nodes_of(r@) == nodes_of(v@),
    decreases v,
{
    let mut r: Vec<AST> = Vec::new();
    let mut i: usize = 0;
    while i < v.len()
        invariant
            i <= v.len(),
            nodes_of(r@) == nodes_of(v@.subrange(0, i as int)),
        decreases v.len() - i,
    {
        let c = v[i].copy();
        proof {
            lemma_nodes_of_push(r@, c);
            lemma_nodes_of_push(v@.subrange(0, i as int), v@[i as int]);
            assert(v@.subrange(0, i as int).push(v@[i as int]) =~= v@.subrange(0, i + 1));
        }
        r.push(c);
        i = i + 1;
    }
    assert(v@.subrange(0, v.len() as int) =~= v@);
    r
}

/// A copy of each name of a list, in order.
pub fn copy_names(v: &Vec<String>) -> (r: Vec<String>)
    ensures
        r@ == v@,
{
    let mut r: Vec<String> = Vec::new();
    let mut i: usize = 0;
    while i < v.len()
        invariant
            i <= v.len(),
            r@ == v@.subrange(0, i as int),
        decreases v.len() - i,
    {
        r.push(v[i].clone());
        i = i + 1;
        assert(r@ =~= v@.subrange(0, i as int));
    }
    assert(v@.subrange(0, v.len() as int) =~= v@);
    r
}

} // verus!
