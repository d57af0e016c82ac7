//! The syntax tree shared by the parser and the code generator.

use vstd::prelude::*;

verus! {

/// The kinds of statement.
#[derive(Debug, Clone, Copy, PartialEq, Eq, Structural)]
pub enum StatementType {
    Return,
}

/// The prefix operators.
#[derive(Debug, Clone, Copy, PartialEq, Eq, Structural)]
pub enum UnaryOperator {
    Negation,
    BitwiseComplement,
    LogicalNegation,
}

/// The infix operators.
#[derive(Debug, Clone, Copy, PartialEq, Eq, Structural)]
pub enum BinaryOperator {
    Addition,
    Subtraction,
    Multiplication,
    Division,
    LessThan,
    LessThanOrEqual,
    GreaterThan,
    GreaterThanOrEqual,
    Equal,
    NotEqual,
    LogicalAnd,
    LogicalOr,
}

/// The tag of a tree node.
#[derive(Debug, PartialEq, Eq)]
pub enum Symbol {
    Program,
    Function(String),
    Statement(StatementType),
    Constant(usize),
    UnaryOperator(UnaryOperator),
    BinaryOperator(BinaryOperator),
}

/// What a `Symbol` is in specifications: the name as a sequence of characters.
pub enum Tag {
    Program,
    Function(Seq<char>),
    Statement(StatementType),
    Constant(usize),
    UnaryOperator(UnaryOperator),
    BinaryOperator(BinaryOperator),
}

impl Symbol {
    /// A copy of the tag.
    pub fn duplicate(&self) -> (copy: Symbol)
        ensures
            copy@ == self@,
    {
        match self {
            Symbol::Program => Symbol::Program,
            Symbol::Function(name) => Symbol::Function(name.clone()),
            Symbol::Statement(kind) => Symbol::Statement(*kind),
            Symbol::Constant(value) => Symbol::Constant(*value),
            Symbol::UnaryOperator(op) => Symbol::UnaryOperator(*op),
            Symbol::BinaryOperator(op) => Symbol::BinaryOperator(*op),
        }
    }
}

impl Clone for Symbol {
    fn clone(&self) -> (copy: Symbol)
        ensures
            copy@ == self@,
    {
        self.duplicate()
    }
}

impl View for Symbol {
    type V = Tag;

    open spec fn view(&self) -> Tag {
        match *self {
            Symbol::Program => Tag::Program,
            Symbol::Function(name) => Tag::Function(name@),
            Symbol::Statement(kind) => Tag::Statement(kind),
            Symbol::Constant(value) => Tag::Constant(value),
            Symbol::UnaryOperator(op) => Tag::UnaryOperator(op),
            Symbol::BinaryOperator(op) => Tag::BinaryOperator(op),
        }
    }
}

/// What an `AST` is in specifications: a tag and the sequence of subtrees.
pub struct Tree {
    pub tag: Tag,
    pub children: Seq<Tree>,
}

impl Tree {
    /// The leaf of an integer literal.
    pub open spec fn constant(value: usize) -> Tree {
        Tree { tag: Tag::Constant(value), children: Seq::empty() }
    }

    /// A prefix operator over its operand.
    pub open spec fn unary(op: UnaryOperator, operand: Tree) -> Tree {
        Tree { tag: Tag::UnaryOperator(op), children: seq![operand] }
    }

    /// An infix operator over its left and its right operand.
    pub open spec fn binary(op: BinaryOperator, left: Tree, right: Tree) -> Tree {
        Tree { tag: Tag::BinaryOperator(op), children: seq![left, right] }
    }

    /// The statement `return expression;`.
    pub open spec fn return_statement(expression: Tree) -> Tree {
        Tree { tag: Tag::Statement(StatementType::Return), children: seq![expression] }
    }

    /// The function `name` with its one statement.
    pub open spec fn function(name: Seq<char>, statement: Tree) -> Tree {
        Tree { tag: Tag::Function(name), children: seq![statement] }
    }

    /// The program of one function.
    pub open spec fn program(function: Tree) -> Tree {
        Tree { tag: Tag::Program, children: seq![function] }
    }

    /// Whether the tree is an expression: a constant without children, a
    /// prefix operator over one expression, or an infix operator over two.
    pub open spec fn is_expression(self) -> bool
        decreases self,
    {
        match self.tag {
            Tag::Constant(_) => self.children.len() == 0,
            Tag::UnaryOperator(_) => self.children.len() == 1 && self.children[0].is_expression(),
            Tag::BinaryOperator(_) => self.children.len() == 2 && self.children[0].is_expression()
                && self.children[1].is_expression(),
            _ => false,
        }
    }

    /// Whether the tree is a `return` statement over one expression.
    pub open spec fn is_statement(self) -> bool {
        &&& self.tag == Tag::Statement(StatementType::Return)
        &&& self.children.len() == 1
        &&& self.children[0].is_expression()
    }

    /// Whether the tree is a function with one statement.
    pub open spec fn is_function(self) -> bool {
        &&& self.tag is Function
        &&& self.children.len() == 1
        &&& self.children[0].is_statement()
    }

    /// Whether the tree is a program whose children are all functions.
    pub open spec fn is_function_list(self) -> bool {
        &&& self.tag == Tag::Program
        &&& forall|i: int| 0 <= i < self.children.len() ==> (#[trigger] self.children[i]).is_function()
    }

    /// Whether the tree is a well-formed program: one function, which holds
    /// one `return` statement, which holds one expression.
    pub open spec fn is_program(self) -> bool {
        self.is_function_list() && self.children.len() == 1
    }
}

/// A node of the syntax tree. It owns its children.
#[derive(Debug, PartialEq, Eq)]
pub struct AST {
    pub symbol: Symbol,
    pub children: Vec<AST>,
}

/// The tree that a node stands for: its tag over the trees of its children.
pub open spec fn tree_of(node: AST) -> Tree
    decreases node,
{
    Tree {
        tag: node.symbol@,
        children: Seq::new(
            node.children.len() as nat,
            |i: int|
                if 0 <= i < node.children.len() {
                    tree_of(node.children[i])
                } else {
                    Tree { tag: Tag::Program, children: Seq::empty() }
                },
        ),
    }
}

impl Clone for AST {
    fn clone(&self) -> (copy: AST)
        ensures
            copy@ == self@,
    {
        self.duplicate()
    }
}

impl View for AST {
    type V = Tree;

    open spec fn view(&self) -> Tree {
        tree_of(*self)
    }
}

impl AST {
    /// The view of a node is its tag's view over its children's views.
    pub proof fn lemma_view(&self)
        ensures
            self@.tag == self.symbol@,
            self@.children.len() == self.children.len(),
            forall|i: int|
                0 <= i < self.children.len() ==> #[trigger] self@.children[i] == self.children[i]@,
    {
    }

    /// A node with the given tag and children.
    pub fn new(symbol: Symbol, children: Vec<AST>) -> (node: AST)
        ensures
            node.symbol == symbol,
            node.children == children,
    {
        AST { symbol, children }
    }

    /// A copy of the tree.
    pub fn duplicate(&self) -> (copy: AST)
        ensures
            copy@ == self@,
        decreases self,
    {
        let mut children: Vec<AST> = Vec::new();
        let mut index: usize = 0;
        while index < self.children.len()
            invariant
                index <= self.children.len(),
                children.len() == index,
                forall|i: int| 0 <= i < index ==> (#[trigger] children[i])@ == self.children[i]@,
            decreases self.children.len() - index,
        {
            children.push(self.children[index].duplicate());
            index += 1;
        }
        let copy = AST { symbol: self.symbol.duplicate(), children };
        proof {
            self.lemma_view();
            copy.lemma_view();
            assert(copy@.children =~= self@.children);
        }
        copy
    }

    /// A node without children.
    pub fn leaf(symbol: Symbol) -> (node: AST)
        ensures
            node@ == (Tree { tag: symbol@, children: Seq::empty() }),
    {
        let node = AST { symbol, children: Vec::new() };
        assert(node@.children =~= Seq::empty());
        node
    }

    /// A node with one child.
    pub fn with_child(symbol: Symbol, child: AST) -> (node: AST)
        ensures
            node@ == (Tree { tag: symbol@, children: seq![child@] }),
    {
        let mut children: Vec<AST> = Vec::new();
        children.push(child);
        let node = AST { symbol, children };
        assert(node@.children =~= seq![child@]);
        node
    }

    /// A node with two children.
    pub fn with_children(symbol: Symbol, left: AST, right: AST) -> (node: AST)
        ensures
            node@ == (Tree { tag: symbol@, children: seq![left@, right@] }),
    {
        let mut children: Vec<AST> = Vec::new();
        children.push(left);
        children.push(right);
        let node = AST { symbol, children };
        assert(node@.children =~= seq![left@, right@]);
        node
    }
}

} // verus!
