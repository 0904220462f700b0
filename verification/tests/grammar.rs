use email_address_list::engine::parse;
use email_address_list::error::SyntaxError;
use email_address_list::tree::{Node, Rule};

fn outline(node: &Node, depth: usize, out: &mut String) {
    for _ in 0..depth {
        out.push_str("  ");
    }
    out.push_str(node.rule.name());
    out.push_str(" [");
    out.push_str(&node.text);
    out.push_str("]\n");
    for child in &node.children {
        outline(child, depth + 1, out);
    }
}

fn tree_of(rule: Rule, text: &str) -> String {
    let mut out = String::new();
    outline(&parse(rule, text).unwrap(), 0, &mut out);
    out
}

#[test]
fn group_tree() {
    let expected = [
        "address_list [Group: a@b.org;]\n",
        "  group [Group: a@b.org;]\n",
        "    name [Group]\n",
        "      value [Group]\n",
        "    contact_list [ a@b.org;]\n",
        "      contact [a@b.org]\n",
        "        mailbox [a@b.org]\n",
    ]
    .concat();
    assert_eq!(tree_of(Rule::AddressList, "Group: a@b.org;"), expected);
}

#[test]
fn contact_list_tree() {
    let expected = [
        "address_list [Name <a@b.org>, c@d.org]\n",
        "  contact_list [Name <a@b.org>, c@d.org]\n",
        "    contact [Name <a@b.org>]\n",
        "      malformed [Name ]\n",
        "      mailbox_angle [<a@b.org>]\n",
        "        mailbox [a@b.org]\n",
        "    contact [c@d.org]\n",
        "      mailbox [c@d.org]\n",
    ]
    .concat();
    assert_eq!(tree_of(Rule::AddressList, "Name <a@b.org>, c@d.org"), expected);
    let list = [
        "contact_list [x@y.z]\n",
        "  contact [x@y.z]\n",
        "    mailbox [x@y.z]\n",
    ]
    .concat();
    assert_eq!(tree_of(Rule::ContactList, "x@y.z"), list);
}

#[test]
fn split_domain_tree() {
    let expected = [
        "contact [<foo@exam ple.org>]\n",
        "  mailbox [foo@exam]\n",
        "  garbage_nongreedy [ple.org]\n",
    ]
    .concat();
    assert_eq!(tree_of(Rule::Contact, "<foo@exam ple.org>"), expected);
}

#[test]
fn quoted_name_with_comment_tree() {
    let expected = [
        "contact [\"Jina\"  (Maoni) <jina@example.org>]\n",
        "  name [\"Jina\"]\n",
        "    value [Jina]\n",
        "  comment [Maoni]\n",
        "  mailbox_angle [<jina@example.org>]\n",
        "    mailbox [jina@example.org]\n",
    ]
    .concat();
    assert_eq!(tree_of(Rule::Contact, "\"Jina\"  (Maoni) <jina@example.org>"), expected);
}

#[test]
fn comment_after_bare_address_is_a_name() {
    let expected = [
        "contact [a@b.org (Enw)]\n",
        "  mailbox [a@b.org]\n",
        "  malformed_comment_name [Enw]\n",
    ]
    .concat();
    assert_eq!(tree_of(Rule::Contact, "a@b.org (Enw)"), expected);
}

#[test]
fn name_before_empty_brackets_tree() {
    let expected = [
        "contact [So Much<>bad@stu.ff]\n",
        "  malformed [So Much]\n",
        "  mailbox [bad@stu.ff]\n",
    ]
    .concat();
    assert_eq!(tree_of(Rule::Contact, "So Much<>bad@stu.ff"), expected);
}

#[test]
fn address_beyond_ascii_is_an_email() {
    let expected = ["contact [ünï@example.org]\n", "  email [ünï@example.org]\n"].concat();
    assert_eq!(tree_of(Rule::Contact, "ünï@example.org"), expected);
    let angle = [
        "contact [<ünï@example.org>]\n",
        "  email_angle [<ünï@example.org>]\n",
        "    email [ünï@example.org]\n",
    ]
    .concat();
    assert_eq!(tree_of(Rule::Contact, "<ünï@example.org>"), angle);
}

#[test]
fn fillers_alone_give_empty_garbage() {
    let expected = ["contact []\n", "  garbage []\n"].concat();
    assert_eq!(tree_of(Rule::Contact, " , ;"), expected);
    assert_eq!(tree_of(Rule::Contact, ""), expected);
    assert_eq!(tree_of(Rule::AddressList, ""), "address_list []\n  contact_list []\n");
}

#[test]
fn unstructured_text_is_garbage_up_to_the_separator() {
    let expected = [
        "address_list [Roses are red, violets are blue]\n",
        "  contact_list [Roses are red, violets are blue]\n",
        "    contact [Roses are red]\n",
        "      garbage [Roses are red]\n",
        "    contact [violets are blue]\n",
        "      garbage [violets are blue]\n",
    ]
    .concat();
    assert_eq!(tree_of(Rule::AddressList, "Roses are red, violets are blue"), expected);
}

#[test]
fn group_fails_where_the_text_stops_being_one() {
    let at = |position: usize| Err(SyntaxError { rule: Rule::Group, position });
    assert_eq!(parse(Rule::Group, "a@b.c").map(|_| ()), at(1));
    assert_eq!(parse(Rule::Group, "Name").map(|_| ()), at(4));
    assert_eq!(parse(Rule::Group, "Name: junk").map(|_| ()), at(6));
    assert_eq!(parse(Rule::Group, "\"x: a@b.c").map(|_| ()), at(0));
    assert_eq!(parse(Rule::Group, "").map(|_| ()), at(0));
    assert!(parse(Rule::Group, "Name: a@b.c, junk <d@e.f>").is_ok());
}

#[test]
fn inner_rules_cannot_be_asked_for() {
    for rule in [
        Rule::Name,
        Rule::Value,
        Rule::Email,
        Rule::EmailAngle,
        Rule::Mailbox,
        Rule::MailboxAngle,
        Rule::Comment,
        Rule::Garbage,
        Rule::GarbageNongreedy,
        Rule::Malformed,
        Rule::MalformedCommentName,
    ] {
        let result = parse(rule, "a@b.c").map(|_| ());
        assert_eq!(result, Err(SyntaxError { rule, position: 0 }));
    }
}

#[test]
fn rule_names() {
    let names = [
        (Rule::AddressList, "address_list"),
        (Rule::ContactList, "contact_list"),
        (Rule::Group, "group"),
        (Rule::Contact, "contact"),
        (Rule::Name, "name"),
        (Rule::Value, "value"),
        (Rule::Email, "email"),
        (Rule::EmailAngle, "email_angle"),
        (Rule::Mailbox, "mailbox"),
        (Rule::MailboxAngle, "mailbox_angle"),
        (Rule::Comment, "comment"),
        (Rule::Garbage, "garbage"),
        (Rule::GarbageNongreedy, "garbage_nongreedy"),
        (Rule::Malformed, "malformed"),
        (Rule::MalformedCommentName, "malformed_comment_name"),
    ];
    for (rule, name) in names {
        assert_eq!(rule.name(), name);
    }
}
