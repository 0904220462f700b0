//! Parse trees: what the grammar produces and the builder consumes.

use vstd::prelude::*;

verus! {

/// The rules of the grammar, by which the nodes of a parse tree are tagged.
#[derive(Clone, Copy, Debug, PartialEq, Eq, Structural)]
pub enum Rule {
    AddressList,
    ContactList,
    Group,
    Contact,
    Name,
    Value,
    Email,
    EmailAngle,
    Mailbox,
    MailboxAngle,
    Comment,
    Garbage,
    GarbageNongreedy,
    Malformed,
    MalformedCommentName,
}

impl Rule {
    /// The name under which the grammar knows the rule.
    pub open spec fn spec_name(self) -> Seq<char> {
        match self {
            Rule::AddressList => "address_list"@,
            Rule::ContactList => "contact_list"@,
            Rule::Group => "group"@,
            Rule::Contact => "contact"@,
            Rule::Name => "name"@,
            Rule::Value => "value"@,
            Rule::Email => "email"@,
            Rule::EmailAngle => "email_angle"@,
            Rule::Mailbox => "mailbox"@,
            Rule::MailboxAngle => "mailbox_angle"@,
            Rule::Comment => "comment"@,
            Rule::Garbage => "garbage"@,
            Rule::GarbageNongreedy => "garbage_nongreedy"@,
            Rule::Malformed => "malformed"@,
            Rule::MalformedCommentName => "malformed_comment_name"@,
        }
    }

    /// The name under which the grammar knows the rule.
    pub fn name(&self) -> (r: &'static str)
        ensures
            r@ == self.spec_name(),
    {
        match self {
            Rule::AddressList => "address_list",
            Rule::ContactList => "contact_list",
            Rule::Group => "group",
            Rule::Contact => "contact",
            Rule::Name => "name",
            Rule::Value => "value",
            Rule::Email => "email",
            Rule::EmailAngle => "email_angle",
            Rule::Mailbox => "mailbox",
            Rule::MailboxAngle => "mailbox_angle",
            Rule::Comment => "comment",
            Rule::Garbage => "garbage",
            Rule::GarbageNongreedy => "garbage_nongreedy",
            Rule::Malformed => "malformed",
            Rule::MalformedCommentName => "malformed_comment_name",
        }
    }
}

/// A parse tree as a mathematical value: a rule, the text that the rule
/// matched, and the trees of the rules matched inside it, in order.
pub struct Tree {
    pub rule: Rule,
    pub text: Seq<char>,
    pub children: Seq<Tree>,
}

impl Tree {
    /// A tree without children.
    pub open spec fn leaf(rule: Rule, text: Seq<char>) -> Tree {
        Tree { rule, text, children: Seq::empty() }
    }
}

/// A node of a parse tree.
#[derive(Debug)]
pub struct Node {
    pub rule: Rule,
    pub text: String,
    pub children: Vec<Node>,
}

/// The tree that a node stands for.
pub open spec fn tree_of(node: Node) -> Tree
    decreases node,
{
    Tree {
        rule: node.rule,
        text: node.text@,
        children: Seq::new(
            node.children@.len(),
            |i: int|
                if 0 <= i < node.children@.len() {
                    tree_of(node.children@[i])
                } else {
                    arbitrary()
                },
        ),
    }
}

impl View for Node {
    type V = Tree;

    open spec fn view(&self) -> Tree {
        tree_of(*self)
    }
}

/// The trees of a sequence of nodes.
pub open spec fn trees(nodes: Seq<Node>) -> Seq<Tree> {
    nodes.map_values(|n: Node| n@)
}

pub proof fn lemma_node_children(node: Node)
    ensures
        node@.children == trees(node.children@),
{
    reveal_with_fuel(tree_of, 2);
    assert(node@.children =~= trees(node.children@));
}

pub proof fn lemma_trees_push(nodes: Seq<Node>, node: Node)
    ensures
        trees(nodes.push(node)) == trees(nodes).push(node@),
{
    assert(trees(nodes.push(node)) =~= trees(nodes).push(node@));
}

impl Node {
    /// The node of that rule and text, with these children.
    pub fn new(rule: Rule, text: &str, children: Vec<Node>) -> (r: Node)
        ensures
            r@ == (Tree { rule, text: text@, children: trees(children@) }),
    {
        let r = Node { rule, text: text.to_owned(), children };
        proof {
            lemma_node_children(r);
        }
        r
    }

    /// The node of that rule and text, without children.
    pub fn leaf(rule: Rule, text: &str) -> (r: Node)
        ensures
            r@ == Tree::leaf(rule, text@),
    {
        let r = Node::new(rule, text, Vec::new());
        assert(trees(Seq::<Node>::empty()) =~= Seq::<Tree>::empty());
        r
    }
}

} // verus!
