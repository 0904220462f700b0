use email_address_list::builder::{build_address_list, build_contact, build_contacts, build_group};
use email_address_list::error::{Error, StructuralError};
use email_address_list::tree::{Node, Rule};
use email_address_list::{AddressList, Contact, Contactish, DeepEq, Group};

fn contact_node(children: Vec<Node>) -> Node {
    Node::new(Rule::Contact, "", children)
}

fn structural(error: StructuralError) -> Error {
    Error::StructuralError(error)
}

#[test]
fn contact_folds_its_children_in_order() {
    let node = contact_node(vec![
        Node::new(Rule::Name, "\"Jina\"", vec![Node::leaf(Rule::Value, " Jina ")]),
        Node::leaf(Rule::Comment, "Maoni"),
        Node::new(
            Rule::MailboxAngle,
            "<jina@example.org>",
            vec![Node::leaf(Rule::Mailbox, "jina@example.org")],
        ),
    ]);
    let built = build_contact(&node).unwrap().unwrap();
    let expected = Contact::new("jina@example.org").set_name("Jina").set_comment("Maoni");
    assert!(built.deep_eq(&expected));
}

#[test]
fn later_children_override_earlier_ones() {
    let node = contact_node(vec![
        Node::leaf(Rule::Mailbox, "first@example.org"),
        Node::leaf(Rule::Malformed, "One"),
        Node::leaf(Rule::Email, "second@example.org"),
        Node::leaf(Rule::MalformedCommentName, " Two "),
    ]);
    let built = build_contact(&node).unwrap().unwrap();
    assert!(built.deep_eq(&Contact::new("second@example.org").set_name("Two")));
}

#[test]
fn blank_name_and_empty_comment_change_nothing() {
    let node = contact_node(vec![
        Node::leaf(Rule::Mailbox, "a@b.c"),
        Node::leaf(Rule::Malformed, "   "),
        Node::leaf(Rule::Comment, ""),
    ]);
    let built = build_contact(&node).unwrap().unwrap();
    assert!(built.deep_eq(&Contact::new("a@b.c")));
    assert_eq!(built.name(), None);
    assert_eq!(built.comment(), None);
}

#[test]
fn split_domain_is_appended_to_the_email() {
    let node = contact_node(vec![
        Node::leaf(Rule::Mailbox, "foo@exam"),
        Node::leaf(Rule::GarbageNongreedy, "  ple.org "),
    ]);
    let built = build_contact(&node).unwrap().unwrap();
    assert_eq!(built.email().unwrap(), "foo@example.org");
}

#[test]
fn garbage_abandons_the_other_fields() {
    let node = contact_node(vec![
        Node::leaf(Rule::Mailbox, "a@b.c"),
        Node::leaf(Rule::Garbage, "what is this"),
        Node::leaf(Rule::Group, "never looked at"),
    ]);
    let built = build_contact(&node).unwrap().unwrap();
    assert!(built.is_garbage());
    assert_eq!(built.comment().unwrap(), "what is this");
    assert_eq!(built.email(), None);
}

#[test]
fn empty_garbage_gives_no_contact() {
    let node = contact_node(vec![Node::leaf(Rule::Garbage, "")]);
    assert!(build_contact(&node).is_none());
    let list = Node::new(
        Rule::ContactList,
        "",
        vec![node, contact_node(vec![Node::leaf(Rule::Mailbox, "a@b.c")])],
    );
    let contacts = build_contacts(&list).unwrap();
    assert_eq!(contacts.len(), 1);
    assert!(contacts[0].deep_eq(&Contact::new("a@b.c")));
}

#[test]
fn name_without_value_is_an_error() {
    let node = contact_node(vec![Node::leaf(Rule::Name, "Jina")]);
    assert_eq!(
        build_contact(&node).unwrap().unwrap_err(),
        structural(StructuralError::EmptyField(Rule::Name))
    );
}

#[test]
fn angle_without_address_is_an_error() {
    let mailbox = contact_node(vec![Node::leaf(Rule::MailboxAngle, "<>")]);
    assert_eq!(
        build_contact(&mailbox).unwrap().unwrap_err(),
        structural(StructuralError::EmptyField(Rule::MailboxAngle))
    );
    let email = contact_node(vec![Node::leaf(Rule::EmailAngle, "<>")]);
    assert_eq!(
        build_contact(&email).unwrap().unwrap_err(),
        structural(StructuralError::EmptyField(Rule::EmailAngle))
    );
}

#[test]
fn foreign_child_is_invalid_nesting() {
    for rule in [Rule::AddressList, Rule::ContactList, Rule::Group, Rule::Contact, Rule::Value] {
        let node = contact_node(vec![Node::leaf(Rule::Mailbox, "a@b.c"), Node::leaf(rule, "x")]);
        assert_eq!(
            build_contact(&node).unwrap().unwrap_err(),
            structural(StructuralError::InvalidNesting(Rule::Contact))
        );
    }
}

#[test]
fn contact_list_fails_fast() {
    let list = Node::new(
        Rule::ContactList,
        "",
        vec![
            contact_node(vec![Node::leaf(Rule::Mailbox, "a@b.c")]),
            contact_node(vec![Node::leaf(Rule::Name, "no value")]),
            contact_node(vec![Node::leaf(Rule::Group, "nested")]),
        ],
    );
    assert_eq!(
        build_contacts(&list).unwrap_err(),
        structural(StructuralError::EmptyField(Rule::Name))
    );
}

#[test]
fn group_needs_a_name_and_a_list() {
    let name = || Node::new(Rule::Name, "Team", vec![Node::leaf(Rule::Value, "Team")]);
    let list = || {
        Node::new(
            Rule::ContactList,
            "",
            vec![contact_node(vec![Node::leaf(Rule::Mailbox, "a@b.c")])],
        )
    };
    let good = Node::new(Rule::Group, "", vec![name(), list()]);
    let expected: AddressList = Group::new("Team").set_contacts(vec![Contact::new("a@b.c")]).into();
    assert!(build_group(&good).unwrap().deep_eq(&expected));
    assert!(build_address_list(&good).unwrap().deep_eq(&expected));

    let nesting = structural(StructuralError::InvalidNesting(Rule::Group));
    let shapes = vec![
        vec![],
        vec![name()],
        vec![list()],
        vec![list(), name()],
        vec![name(), list(), list()],
        vec![name(), Node::leaf(Rule::Comment, "c")],
    ];
    for children in shapes {
        let bad = Node::new(Rule::Group, "", children);
        assert_eq!(build_group(&bad).unwrap_err(), nesting);
    }
    let unnamed = Node::new(Rule::Group, "", vec![Node::leaf(Rule::Name, "Team"), list()]);
    assert_eq!(
        build_group(&unnamed).unwrap_err(),
        structural(StructuralError::EmptyField(Rule::Name))
    );
}

#[test]
fn address_list_takes_its_first_child() {
    let list = Node::new(
        Rule::ContactList,
        "",
        vec![contact_node(vec![Node::leaf(Rule::Mailbox, "a@b.c")])],
    );
    let nested = Node::new(
        Rule::AddressList,
        "",
        vec![Node::new(Rule::AddressList, "", vec![list])],
    );
    let expected: AddressList = vec![Contact::new("a@b.c")].into();
    assert!(build_address_list(&nested).unwrap().deep_eq(&expected));

    let empty = Node::new(Rule::AddressList, "", vec![]);
    let nothing: AddressList = Vec::<Contact>::new().into();
    assert!(build_address_list(&empty).unwrap().deep_eq(&nothing));
}

#[test]
fn other_rules_are_no_address_list() {
    for rule in [Rule::Contact, Rule::Name, Rule::Mailbox, Rule::Garbage, Rule::Comment] {
        let node = Node::leaf(rule, "x");
        assert_eq!(
            build_address_list(&node).unwrap_err(),
            structural(StructuralError::Unexpected(rule))
        );
        let inside = Node::new(Rule::AddressList, "", vec![Node::leaf(rule, "x")]);
        assert_eq!(
            build_address_list(&inside).unwrap_err(),
            structural(StructuralError::Unexpected(rule))
        );
    }
}
