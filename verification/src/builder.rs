//! The builder: it walks a parse tree into contacts, groups and address
//! lists.
//!
//! The builder dispatches on the rules of the nodes. A tree of a shape that
//! it does not know is a structural error; text that the grammar could not
//! structure is not.

use crate::address_list::{
    contacts_view, AddressList, AddressListView, Contact, ContactView, Contactish, Contacts,
    EmailContact, EmailView, GarbageContact, Group,
};
use crate::error::{Error, StructuralError};
use crate::text::{trim, trimmed};
use crate::tree::{lemma_node_children, trees, Node, Rule, Tree};
use vstd::prelude::*;
use vstd::string::StringExecFns;

verus! {

/// What a contact node gives: no contact at all, a contact, or the error
/// that its shape is.
pub type Built = Option<Result<ContactView, Error>>;

/// The structural error of a node that lacks the value it must hold.
pub open spec fn empty_field(rule: Rule) -> Error {
    Error::StructuralError(StructuralError::EmptyField(rule))
}

/// The structural error of a node with children that its rule does not
/// allow.
pub open spec fn invalid_nesting(rule: Rule) -> Error {
    Error::StructuralError(StructuralError::InvalidNesting(rule))
}

/// The structural error of a node that is no address list.
pub open spec fn unexpected(rule: Rule) -> Error {
    Error::StructuralError(StructuralError::Unexpected(rule))
}

/// The contact that the children of a contact node give from the `i`-th on,
/// when those before it have given `contact`. The children are taken in
/// order:
///
/// - malformed text, and a comment that stands for a name, set the name;
/// - a name sets the name from the value inside it, and is an error without
///   one;
/// - an address sets the email, one in angle brackets from the address
///   inside them, and is an error without one;
/// - a comment sets the comment;
/// - garbage ends the walk: the contact is that garbage and nothing else, or
///   no contact at all where the garbage is empty;
/// - the rest of a split domain is trimmed and appended to the email;
/// - any other child is an error.
pub open spec fn contact_from(children: Seq<Tree>, i: int, contact: EmailView) -> Built
    decreases children.len() - i,
{
    if !(0 <= i < children.len()) {
        Some(Ok(ContactView::Email(contact)))
    } else {
        let child = children[i];
        match child.rule {
            Rule::Malformed | Rule::MalformedCommentName => contact_from(
                children,
                i + 1,
                contact.with_name(child.text),
            ),
            Rule::Name => if child.children.len() == 0 {
                Some(Err(empty_field(child.rule)))
            } else {
                contact_from(children, i + 1, contact.with_name(child.children[0].text))
            },
            Rule::Email | Rule::Mailbox => contact_from(
                children,
                i + 1,
                contact.with_email(child.text),
            ),
            Rule::EmailAngle | Rule::MailboxAngle => if child.children.len() == 0 {
                Some(Err(empty_field(child.rule)))
            } else {
                contact_from(children, i + 1, contact.with_email(child.children[0].text))
            },
            Rule::Comment => contact_from(children, i + 1, contact.with_comment(child.text)),
            Rule::Garbage => if child.text.len() == 0 {
                None
            } else {
                Some(Ok(ContactView::Garbage(child.text)))
            },
            Rule::GarbageNongreedy => contact_from(
                children,
                i + 1,
                contact.with_email(contact.email + trim(child.text)),
            ),
            _ => Some(Err(invalid_nesting(Rule::Contact))),
        }
    }
}

/// The contact of a contact node.
pub open spec fn contact_of(tree: Tree) -> Built {
    contact_from(tree.children, 0, EmailView::fresh(Seq::empty()))
}

/// The contacts of the nodes from the `i`-th on, in order. Nodes that give
/// no contact are passed over. The first error ends the walk.
pub open spec fn contacts_from(children: Seq<Tree>, i: int) -> Result<Seq<ContactView>, Error>
    decreases children.len() - i,
{
    if !(0 <= i < children.len()) {
        Ok(Seq::empty())
    } else {
        match contact_of(children[i]) {
            Some(Err(error)) => Err(error),
            Some(Ok(contact)) => match contacts_from(children, i + 1) {
                Ok(rest) => Ok(seq![contact] + rest),
                Err(error) => Err(error),
            },
            None => contacts_from(children, i + 1),
        }
    }
}

/// The contacts of a list node.
pub open spec fn contacts_of(tree: Tree) -> Result<Seq<ContactView>, Error> {
    contacts_from(tree.children, 0)
}

/// The group of a group node: exactly a name, which holds the value that is
/// the name of the group, and a list of contacts. Any other shape is an
/// error.
pub open spec fn group_of(tree: Tree) -> Result<AddressListView, Error> {
    if tree.children.len() == 2 && tree.children[0].rule == Rule::Name && tree.children[1].rule
        == Rule::ContactList {
        if tree.children[0].children.len() == 0 {
            Err(empty_field(Rule::Name))
        } else {
            match contacts_of(tree.children[1]) {
                Ok(contacts) => Ok(
                    AddressListView::Group { name: tree.children[0].children[0].text, contacts },
                ),
                Err(error) => Err(error),
            }
        }
    } else {
        Err(invalid_nesting(Rule::Group))
    }
}

/// The address list of a tree: that of its first child where the tree is an
/// address list, the group or the contacts where it is one of these. A tree
/// of any other rule is an error, an address list without children an empty
/// list of contacts.
pub open spec fn address_list_of(tree: Tree) -> Result<AddressListView, Error>
    decreases tree,
{
    match tree.rule {
        Rule::Group => group_of(tree),
        Rule::ContactList => match contacts_of(tree) {
            Ok(contacts) => Ok(AddressListView::Contacts(contacts)),
            Err(error) => Err(error),
        },
        Rule::AddressList => if tree.children.len() == 0 {
            Ok(AddressListView::Contacts(Seq::empty()))
        } else {
            address_list_of(tree.children[0])
        },
        rule => Err(unexpected(rule)),
    }
}

/// Whether what was built is what the walk over the children gives.
pub open spec fn built_is(built: Option<Result<Contact, Error>>, expected: Built) -> bool {
    match built {
        None => expected is None,
        Some(Ok(contact)) => expected == Some(Ok::<ContactView, Error>(contact@)),
        Some(Err(error)) => expected == Some(Err::<ContactView, Error>(error)),
    }
}

/// Whether the contacts that were built are those that the nodes give.
pub open spec fn contacts_are(
    built: Result<Contacts, Error>,
    expected: Result<Seq<ContactView>, Error>,
) -> bool {
    match built {
        Ok(contacts) => expected == Ok::<Seq<ContactView>, Error>(contacts@),
        Err(error) => expected == Err::<Seq<ContactView>, Error>(error),
    }
}

/// Whether the address list that was built is the one that the tree gives.
pub open spec fn list_is(
    built: Result<AddressList, Error>,
    expected: Result<AddressListView, Error>,
) -> bool {
    match built {
        Ok(list) => expected == Ok::<AddressListView, Error>(list@),
        Err(error) => expected == Err::<AddressListView, Error>(error),
    }
}

/// The text of the first child of a node that has children.
fn first_text(node: &Node) -> (r: &str)
    requires
        node.children@.len() > 0,
    ensures
        r@ == node@.children[0].text,
{
    proof {
        lemma_node_children(*node);
    }
    node.children[0].text.as_str()
}

/// Builds the contact of a contact node.
pub fn build_contact(node: &Node) -> (r: Option<Result<Contact, Error>>)
    ensures
        built_is(r, contact_of(node@)),
{
    let mut contact = EmailContact::default();
    let mut i: usize = 0;
    proof {
        lemma_node_children(*node);
    }
    while i < node.children.len()
        invariant
            i <= node.children@.len(),
            node@.children == trees(node.children@),
            contact_of(node@) == contact_from(node@.children, i as int, contact@),
        decreases node.children@.len() - i,
    {
        let child = &node.children[i];
        proof {
            lemma_node_children(*child);
            assert(node@.children[i as int] == child@);
        }
        match child.rule {
            Rule::Malformed | Rule::MalformedCommentName => {
                contact = contact.set_name(child.text.as_str());
            },
            Rule::Name => {
                if child.children.len() == 0 {
                    return Some(Err(Error::StructuralError(StructuralError::EmptyField(child.rule))));
                }
                contact = contact.set_name(first_text(child));
            },
            Rule::Email | Rule::Mailbox => {
                contact = contact.set_email(child.text.as_str());
            },
            Rule::EmailAngle | Rule::MailboxAngle => {
                if child.children.len() == 0 {
                    return Some(Err(Error::StructuralError(StructuralError::EmptyField(child.rule))));
                }
                contact = contact.set_email(first_text(child));
            },
            Rule::Comment => {
                contact = contact.set_comment(child.text.as_str());
            },
            Rule::Garbage => {
                if child.text.as_str().is_empty() {
                    return None;
                }
                let garbage = GarbageContact::new(child.text.as_str());
                return Some(Ok(Contact::Garbage(garbage)));
            },
            Rule::GarbageNongreedy => {
                let rest = trimmed(child.text.as_str());
                let mut email = match contact.email() {
                    Some(email) => email.clone(),
                    None => String::new(),
                };
                email.append(rest.as_str());
                contact = contact.set_email(email.as_str());
            },
            _ => {
                return Some(
                    Err(Error::StructuralError(StructuralError::InvalidNesting(Rule::Contact))),
                );
            },
        }
        i += 1;
    }
    Some(Ok(Contact::Email(contact)))
}

proof fn lemma_contacts_step(children: Seq<Tree>, i: int, done: Seq<ContactView>)
    requires
        0 <= i < children.len(),
    ensures
        contact_of(children[i]) matches Some(Ok(contact)) ==> (match contacts_from(children, i) {
            Ok(rest) => contacts_from(children, i + 1) matches Ok(tail) && done + rest
                == done.push(contact) + tail,
            Err(error) => contacts_from(children, i + 1) == Err::<Seq<ContactView>, Error>(error),
        }),
{
    if let Some(Ok(contact)) = contact_of(children[i]) {
        if let Ok(tail) = contacts_from(children, i + 1) {
            assert(done + (seq![contact] + tail) =~= done.push(contact) + tail);
        }
    }
}

/// The contacts that were built, then those still to come.
pub open spec fn followed_by(
    done: Seq<ContactView>,
    coming: Result<Seq<ContactView>, Error>,
) -> Result<Seq<ContactView>, Error> {
    match coming {
        Ok(rest) => Ok(done + rest),
        Err(error) => Err(error),
    }
}

/// Builds the contacts of a list node.
pub fn build_contacts(node: &Node) -> (r: Result<Contacts, Error>)
    ensures
        contacts_are(r, contacts_of(node@)),
{
    let mut contacts: Vec<Contact> = Vec::new();
    let mut i: usize = 0;
    proof {
        lemma_node_children(*node);
        assert(contacts_view(contacts@) =~= Seq::<ContactView>::empty());
        match contacts_of(node@) {
            Ok(all) => {
                assert(Seq::<ContactView>::empty() + all =~= all);
            },
            Err(_) => {},
        }
    }
    while i < node.children.len()
        invariant
            i <= node.children@.len(),
            node@.children == trees(node.children@),
            contacts_of(node@) == followed_by(
                contacts_view(contacts@),
                contacts_from(node@.children, i as int),
            ),
        decreases node.children@.len() - i,
    {
        proof {
            assert(node@.children[i as int] == node.children@[i as int]@);
            lemma_contacts_step(node@.children, i as int, contacts_view(contacts@));
        }
        match build_contact(&node.children[i]) {
            Some(Ok(contact)) => {
                proof {
                    assert(contacts_view(contacts@.push(contact)) =~= contacts_view(
                        contacts@,
                    ).push(contact@));
                }
                contacts.push(contact);
            },
            Some(Err(error)) => {
                return Err(error);
            },
            None => {},
        }
        i += 1;
    }
    proof {
        assert(contacts_view(contacts@) + Seq::<ContactView>::empty() =~= contacts_view(contacts@));
    }
    Ok(Contacts { contacts })
}

/// Builds the group of a group node.
pub fn build_group(node: &Node) -> (r: Result<AddressList, Error>)
    ensures
        list_is(r, group_of(node@)),
{
    proof {
        lemma_node_children(*node);
    }
    if node.children.len() != 2 {
        return Err(Error::StructuralError(StructuralError::InvalidNesting(Rule::Group)));
    }
    let name = &node.children[0];
    let list = &node.children[1];
    proof {
        assert(node@.children[0] == name@);
        assert(node@.children[1] == list@);
        lemma_node_children(*name);
    }
    match (name.rule, list.rule) {
        (Rule::Name, Rule::ContactList) => {
            if name.children.len() == 0 {
                return Err(Error::StructuralError(StructuralError::EmptyField(Rule::Name)));
            }
            match build_contacts(list) {
                Ok(contacts) => Ok(
                    AddressList::Group(Group { name: first_text(name).to_owned(), contacts }),
                ),
                Err(error) => Err(error),
            }
        },
        _ => Err(Error::StructuralError(StructuralError::InvalidNesting(Rule::Group))),
    }
}

/// Builds the address list of a tree.
pub fn build_address_list(node: &Node) -> (r: Result<AddressList, Error>)
    ensures
        list_is(r, address_list_of(node@)),
    decreases node,
{
    proof {
        lemma_node_children(*node);
    }
    match node.rule {
        Rule::Group => build_group(node),
        Rule::ContactList => match build_contacts(node) {
            Ok(contacts) => Ok(AddressList::Contacts(contacts)),
            Err(error) => Err(error),
        },
        Rule::AddressList => {
            if node.children.len() == 0 {
                Ok(AddressList::Contacts(Contacts::new()))
            } else {
                proof {
                    assert(node@.children[0] == node.children@[0]@);
                }
                build_address_list(&node.children[0])
            }
        },
        rule => Err(Error::StructuralError(StructuralError::Unexpected(rule))),
    }
}

} // verus!
