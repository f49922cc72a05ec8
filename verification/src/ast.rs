//! The abstract syntax tree produced by the parser.

use vstd::prelude::*;

verus! {

/// A node of the tree. Each variant owns its children.
///
/// `>` and `>=` do not appear: the parser models them as `OperatorLt`
/// and `OperatorLtEq` with the operands swapped. `offset` of a local
/// variable is the byte distance from the frame base pointer to the
/// variable's slot.
#[derive(Debug, PartialEq)]
pub enum Node {
    Block { statements: Vec<Node> },
    Integer { value: i32 },
    LocalVariable { identifier: String, offset: usize },
    Return { value: Box<Node> },
    If { condition: Box<Node>, statement: Box<Node>, end_label: String },
    IfElse {
        condition: Box<Node>,
        statement: Box<Node>,
        end_label: String,
        else_statement: Box<Node>,
        else_label: String,
    },
    While { condition: Box<Node>, statement: Box<Node>, begin_label: String, end_label: String },
    For {
        initializer: Option<Box<Node>>,
        condition: Option<Box<Node>>,
        updater: Option<Box<Node>>,
        statement: Box<Node>,
        begin_label: String,
        end_label: String,
    },
    FunctionCall { identifier: String, arguments: Vec<Node> },
    OperatorAdd { lhs: Box<Node>, rhs: Box<Node> },
    OperatorSub { lhs: Box<Node>, rhs: Box<Node> },
    OperatorMul { lhs: Box<Node>, rhs: Box<Node> },
    OperatorDiv { lhs: Box<Node>, rhs: Box<Node> },
    OperatorLt { lhs: Box<Node>, rhs: Box<Node> },
    OperatorLtEq { lhs: Box<Node>, rhs: Box<Node> },
    OperatorEq { lhs: Box<Node>, rhs: Box<Node> },
    OperatorNe { lhs: Box<Node>, rhs: Box<Node> },
    OperatorAssign { lhs: Box<Node>, rhs: Box<Node> },
}

/// The mathematical abstraction of a node: strings become character
/// sequences, integers unbounded.
pub enum SpecNode {
    Block { statements: Seq<SpecNode> },
    Integer { value: int },
    LocalVariable { identifier: Seq<char>, offset: nat },
    Return { value: Box<SpecNode> },
    If { condition: Box<SpecNode>, statement: Box<SpecNode>, end_label: Seq<char> },
    IfElse {
        condition: Box<SpecNode>,
        statement: Box<SpecNode>,
        end_label: Seq<char>,
        else_statement: Box<SpecNode>,
        else_label: Seq<char>,
    },
    While {
        condition: Box<SpecNode>,
        statement: Box<SpecNode>,
        begin_label: Seq<char>,
        end_label: Seq<char>,
    },
    For {
        initializer: Option<Box<SpecNode>>,
        condition: Option<Box<SpecNode>>,
        updater: Option<Box<SpecNode>>,
        statement: Box<SpecNode>,
        begin_label: Seq<char>,
        end_label: Seq<char>,
    },
    FunctionCall { identifier: Seq<char>, arguments: Seq<SpecNode> },
    OperatorAdd { lhs: Box<SpecNode>, rhs: Box<SpecNode> },
    OperatorSub { lhs: Box<SpecNode>, rhs: Box<SpecNode> },
    OperatorMul { lhs: Box<SpecNode>, rhs: Box<SpecNode> },
    OperatorDiv { lhs: Box<SpecNode>, rhs: Box<SpecNode> },
    OperatorLt { lhs: Box<SpecNode>, rhs: Box<SpecNode> },
    OperatorLtEq { lhs: Box<SpecNode>, rhs: Box<SpecNode> },
    OperatorEq { lhs: Box<SpecNode>, rhs: Box<SpecNode> },
    OperatorNe { lhs: Box<SpecNode>, rhs: Box<SpecNode> },
    OperatorAssign { lhs: Box<SpecNode>, rhs: Box<SpecNode> },
}

impl Node {
    /// The abstraction of this node.
    pub open spec fn deep_view(&self) -> SpecNode
        decreases self,
    {
        match self {
            Node::Block { statements } => SpecNode::Block {
                statements: deep_view_seq(statements@),
            },
            Node::Integer { value } => SpecNode::Integer { value: *value as int },
            Node::LocalVariable { identifier, offset } => SpecNode::LocalVariable {
                identifier: identifier@,
                offset: *offset as nat,
            },
            Node::Return { value } => SpecNode::Return { value: Box::new(value.deep_view()) },
            Node::If { condition, statement, end_label } => SpecNode::If {
                condition: Box::new(condition.deep_view()),
                statement: Box::new(statement.deep_view()),
                end_label: end_label@,
            },
            Node::IfElse { condition, statement, end_label, else_statement, else_label } => {
                SpecNode::IfElse {
                    condition: Box::new(condition.deep_view()),
                    statement: Box::new(statement.deep_view()),
                    end_label: end_label@,
                    else_statement: Box::new(else_statement.deep_view()),
                    else_label: else_label@,
                }
            },
            Node::While { condition, statement, begin_label, end_label } => SpecNode::While {
                condition: Box::new(condition.deep_view()),
                statement: Box::new(statement.deep_view()),
                begin_label: begin_label@,
                end_label: end_label@,
            },
            Node::For { initializer, condition, updater, statement, begin_label, end_label } => {
                SpecNode::For {
                    initializer: match initializer {
                        Some(n) => Some(Box::new(n.deep_view())),
                        None => None,
                    },
                    condition: match condition {
                        Some(n) => Some(Box::new(n.deep_view())),
                        None => None,
                    },
                    updater: match updater {
                        Some(n) => Some(Box::new(n.deep_view())),
                        None => None,
                    },
                    statement: Box::new(statement.deep_view()),
                    begin_label: begin_label@,
                    end_label: end_label@,
                }
            },
            Node::FunctionCall { identifier, arguments } => SpecNode::FunctionCall {
                identifier: identifier@,
                arguments: deep_view_seq(arguments@),
            },
            Node::OperatorAdd { lhs, rhs } => SpecNode::OperatorAdd {
                lhs: Box::new(lhs.deep_view()),
                rhs: Box::new(rhs.deep_view()),
            },
            Node::OperatorSub { lhs, rhs } => SpecNode::OperatorSub {
                lhs: Box::new(lhs.deep_view()),
                rhs: Box::new(rhs.deep_view()),
            },
            Node::OperatorMul { lhs, rhs } => SpecNode::OperatorMul {
                lhs: Box::new(lhs.deep_view()),
                rhs: Box::new(rhs.deep_view()),
            },
            Node::OperatorDiv { lhs, rhs } => SpecNode::OperatorDiv {
                lhs: Box::new(lhs.deep_view()),
                rhs: Box::new(rhs.deep_view()),
            },
            Node::OperatorLt { lhs, rhs } => SpecNode::OperatorLt {
                lhs: Box::new(lhs.deep_view()),
                rhs: Box::new(rhs.deep_view()),
            },
            Node::OperatorLtEq { lhs, rhs } => SpecNode::OperatorLtEq {
                lhs: Box::new(lhs.deep_view()),
                rhs: Box::new(rhs.deep_view()),
            },
            Node::OperatorEq { lhs, rhs } => SpecNode::OperatorEq {
                lhs: Box::new(lhs.deep_view()),
                rhs: Box::new(rhs.deep_view()),
            },
            Node::OperatorNe { lhs, rhs } => SpecNode::OperatorNe {
                lhs: Box::new(lhs.deep_view()),
                rhs: Box::new(rhs.deep_view()),
            },
            Node::OperatorAssign { lhs, rhs } => SpecNode::OperatorAssign {
                lhs: Box::new(lhs.deep_view()),
                rhs: Box::new(rhs.deep_view()),
            },
        }
    }

    /// Whether the node may stand on the left of an assignment: only a
    /// local-variable reference may.
    pub fn is_left_value(&self) -> (r: bool)
        ensures
            r == self.deep_view().is_left_value(),
    {
        match self {
            Self::LocalVariable { identifier: _, offset: _ } => true,
            _ => false,
        }
    }
}

/// The elementwise abstraction of a sequence of nodes.
pub open spec fn deep_view_seq(s: Seq<Node>) -> Seq<SpecNode>
    decreases s,
{
    if s.len() == 0 {
        Seq::empty()
    } else {
        deep_view_seq(s.drop_last()).push(s.last().deep_view())
    }
}

pub proof fn lemma_deep_view_seq_push(s: Seq<Node>, x: Node)
    ensures
        deep_view_seq(s.push(x)) == deep_view_seq(s).push(x.deep_view()),
{
    assert(s.push(x).drop_last() =~= s);
    assert(s.push(x).last() == x);
}

pub proof fn lemma_deep_view_seq_len(s: Seq<Node>)
    ensures
        deep_view_seq(s).len() == s.len(),
        forall|i: int| 0 <= i < s.len() ==> #[trigger] deep_view_seq(s)[i] == s[i].deep_view(),
    decreases s,
{
    if s.len() > 0 {
        lemma_deep_view_seq_len(s.drop_last());
    }
}

impl SpecNode {
    /// Whether the node is an l-value.
    pub open spec fn is_left_value(self) -> bool {
        self matches SpecNode::LocalVariable { .. }
    }

    /// Whether the node is a block.
    pub open spec fn is_block(self) -> bool {
        self matches SpecNode::Block { .. }
    }

    /// Well-formedness for code generation: every assignment's left
    /// side is an l-value, and no call carries more than six
    /// arguments.
    pub open spec fn wf(self) -> bool
        decreases self,
    {
        match self {
            SpecNode::Block { statements } => wf_seq(statements),
            SpecNode::Integer { .. } => true,
            SpecNode::LocalVariable { .. } => true,
            SpecNode::Return { value } => value.wf(),
            SpecNode::If { condition, statement, .. } => condition.wf() && statement.wf(),
            SpecNode::IfElse { condition, statement, else_statement, .. } => condition.wf()
                && statement.wf() && else_statement.wf(),
            SpecNode::While { condition, statement, .. } => condition.wf() && statement.wf(),
            SpecNode::For { initializer, condition, updater, statement, .. } => {
                &&& match initializer {
                    Some(n) => n.wf(),
                    None => true,
                }
                &&& match condition {
                    Some(n) => n.wf(),
                    None => true,
                }
                &&& match updater {
                    Some(n) => n.wf(),
                    None => true,
                }
                &&& statement.wf()
            },
            SpecNode::FunctionCall { arguments, .. } => arguments.len() <= 6 && wf_seq(arguments),
            SpecNode::OperatorAdd { lhs, rhs } => lhs.wf() && rhs.wf(),
            SpecNode::OperatorSub { lhs, rhs } => lhs.wf() && rhs.wf(),
            SpecNode::OperatorMul { lhs, rhs } => lhs.wf() && rhs.wf(),
            SpecNode::OperatorDiv { lhs, rhs } => lhs.wf() && rhs.wf(),
            SpecNode::OperatorLt { lhs, rhs } => lhs.wf() && rhs.wf(),
            SpecNode::OperatorLtEq { lhs, rhs } => lhs.wf() && rhs.wf(),
            SpecNode::OperatorEq { lhs, rhs } => lhs.wf() && rhs.wf(),
            SpecNode::OperatorNe { lhs, rhs } => lhs.wf() && rhs.wf(),
            SpecNode::OperatorAssign { lhs, rhs } => lhs.is_left_value() && lhs.wf() && rhs.wf(),
        }
    }
}

/// Well-formedness of every node of a sequence.
pub open spec fn wf_seq(s: Seq<SpecNode>) -> bool
    decreases s,
{
    if s.len() == 0 {
        true
    } else {
        wf_seq(s.drop_last()) && s.last().wf()
    }
}

pub proof fn lemma_wf_seq_index(s: Seq<SpecNode>)
    requires
        wf_seq(s),
    ensures
        forall|i: int| 0 <= i < s.len() ==> #[trigger] s[i].wf(),
    decreases s,
{
    if s.len() > 0 {
        lemma_wf_seq_index(s.drop_last());
        assert forall|i: int| 0 <= i < s.len() implies #[trigger] s[i].wf() by {
            if i < s.len() - 1 {
                assert(s.drop_last()[i] == s[i]);
            } else {
                assert(s[i] == s.last());
            }
        };
    }
}

} // verus!
