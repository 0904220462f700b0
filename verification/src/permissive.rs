//! Permissiveness: the grammar gives a tree for every text, and the builder
//! walks every tree of the grammar without a structural error. So parsing
//! fails on blank input only.

use crate::address_list::{AddressListView, ContactView, EmailView};
use crate::builder::{contact_from, contacts_from, Built};
use crate::error::Error;
use crate::engine::lemma_scan;
use crate::grammar::{
    address_part, angle_at, bare_form, comment_tail, contact_at, display_form, entries_from,
    garbage_form, group_name_at, group_of, is_filler, quoted_form, skip_filler, structured_at,
};
use crate::parser::{address_list, candidate_of, has_entry, single_contact};
use crate::repair::{repaired, with_absent};
use crate::text::is_blank;
use crate::tree::{Rule, Tree};
use vstd::prelude::*;

verus! {

/// Whether the builder can walk over a child of a contact node: its rule is
/// one that a contact may hold, it holds a value where its rule needs one,
/// and it is not empty where it is garbage.
pub open spec fn is_walkable(child: Tree) -> bool {
    match child.rule {
        Rule::Malformed
        | Rule::MalformedCommentName
        | Rule::Email
        | Rule::Mailbox
        | Rule::Comment
        | Rule::GarbageNongreedy => true,
        Rule::Garbage => child.text.len() > 0,
        Rule::Name | Rule::EmailAngle | Rule::MailboxAngle => child.children.len() > 0,
        _ => false,
    }
}

/// Whether the builder can walk over all the children of a contact node.
pub open spec fn all_walkable(children: Seq<Tree>) -> bool {
    forall|i: int| 0 <= i < children.len() ==> is_walkable(#[trigger] children[i])
}

/// Whether each node is one whose children the builder can walk over.
pub open spec fn all_contacts_walkable(contacts: Seq<Tree>) -> bool {
    forall|i: int| 0 <= i < contacts.len() ==> all_walkable((#[trigger] contacts[i]).children)
}

/// Whether what was built is a contact.
pub open spec fn is_sound(built: Built) -> bool {
    built matches Some(Ok(_))
}

/// Children that the builder can walk over give a contact.
pub proof fn lemma_walk_is_sound(children: Seq<Tree>, i: int, contact: EmailView)
    requires
        all_walkable(children),
    ensures
        is_sound(contact_from(children, i, contact)),
    decreases children.len() - i,
{
    if 0 <= i < children.len() {
        let child = children[i];
        assert(is_walkable(child));
        match child.rule {
            Rule::Malformed | Rule::MalformedCommentName => {
                lemma_walk_is_sound(children, i + 1, contact.with_name(child.text));
            },
            Rule::Name => {
                lemma_walk_is_sound(children, i + 1, contact.with_name(child.children[0].text));
            },
            Rule::Email | Rule::Mailbox => {
                lemma_walk_is_sound(children, i + 1, contact.with_email(child.text));
            },
            Rule::EmailAngle | Rule::MailboxAngle => {
                lemma_walk_is_sound(children, i + 1, contact.with_email(child.children[0].text));
            },
            Rule::Comment => {
                lemma_walk_is_sound(children, i + 1, contact.with_comment(child.text));
            },
            Rule::GarbageNongreedy => {
                lemma_walk_is_sound(
                    children,
                    i + 1,
                    contact.with_email(contact.email + crate::text::trim(child.text)),
                );
            },
            _ => {},
        }
    }
}

/// The address in angle brackets, with the comment that may follow it, is
/// made of nodes that the builder can walk over.
pub proof fn lemma_address_part_walkable(s: Seq<char>, p: int)
    ensures
        angle_at(s, p) matches Some((nodes, _)) ==> all_walkable(nodes),
        all_walkable(comment_tail(s, p).0),
        address_part(s, p) matches Some((nodes, _)) ==> all_walkable(nodes),
{
    if let Some((nodes, end)) = angle_at(s, p) {
        assert(all_walkable(nodes));
        assert(all_walkable(comment_tail(s, end).0));
    }
}

/// Where the next entry of a list starts, there is no filler.
pub proof fn lemma_skip_filler(s: Seq<char>, p: int)
    requires
        0 <= p <= s.len(),
    ensures
        p <= skip_filler(s, p) <= s.len(),
        skip_filler(s, p) < s.len() ==> !is_filler(s[skip_filler(s, p)]),
    decreases s.len() - p,
{
    if p < s.len() {
        if is_filler(s[p]) {
            lemma_skip_filler(s, p + 1);
        } else if let Some(end) = crate::grammar::empty_angle(s, p) {
            lemma_scan(s, p + 1, crate::grammar::Class::Space);
            lemma_skip_filler(s, end);
        }
    }
}

/// Every form of a contact is made of nodes that the builder can walk over.
pub proof fn lemma_contact_walkable(s: Seq<char>, p: int)
    requires
        0 <= p < s.len(),
        !is_filler(s[p]),
    ensures
        structured_at(s, p) matches Some((nodes, _)) ==> all_walkable(nodes),
        all_walkable(garbage_form(s, p).0),
        all_walkable(contact_at(s, p).0),
{
    lemma_scan(s, p + 1, crate::grammar::Class::Entry);
    lemma_address_part_walkable(s, p);
    if let Some((nodes, _)) = bare_form(s, p) {
        let to = crate::grammar::address_end(s, p).unwrap();
        lemma_address_part_walkable(s, crate::grammar::scan(s, to, crate::grammar::Class::Space));
        assert(all_walkable(nodes));
    }
    if let Some((nodes, _)) = quoted_form(s, p) {
        let (from, to, end) = crate::grammar::quoted_at(s, p).unwrap();
        lemma_address_part_walkable(s, end);
        lemma_address_part_walkable(
            s,
            crate::grammar::scan(s, comment_tail(s, end).1, crate::grammar::Class::Space),
        );
        assert(all_walkable(nodes));
    }
    if let Some((nodes, _)) = display_form(s, p) {
        lemma_address_part_walkable(s, crate::grammar::scan(s, p, crate::grammar::Class::Display));
        assert(all_walkable(nodes));
    }
}

/// Every contact of a list is one whose children the builder can walk
/// over.
pub proof fn lemma_entries_walkable(s: Seq<char>, p: int, strict: bool)
    ensures
        entries_from(s, p, strict) matches Ok(contacts) ==> all_contacts_walkable(contacts),
        !strict ==> entries_from(s, p, strict) is Ok,
    decreases s.len() - p,
{
    let start = skip_filler(s, p);
    if 0 <= p <= start < s.len() && !(strict && structured_at(s, start) is None) {
        let end = contact_at(s, start).1;
        if start < end <= s.len() {
            lemma_skip_filler(s, p);
            lemma_contact_walkable(s, start);
            lemma_entries_walkable(s, end, strict);
        }
    }
}

/// Contacts whose children the builder can walk over give no error.
pub proof fn lemma_contacts_sound(contacts: Seq<Tree>, i: int)
    requires
        all_contacts_walkable(contacts),
    ensures
        contacts_from(contacts, i) is Ok,
    decreases contacts.len() - i,
{
    if 0 <= i < contacts.len() {
        lemma_walk_is_sound(contacts[i].children, 0, EmailView::fresh(Seq::empty()));
        lemma_contacts_sound(contacts, i + 1);
    }
}

/// The grammar and the builder make an address list of every text.
pub proof fn every_text_has_a_candidate(s: Seq<char>)
    ensures
        candidate_of(s) is Ok,
{
    reveal_with_fuel(crate::builder::address_list_of, 2);
    let tree = crate::grammar::address_list_of(s);
    lemma_entries_walkable(s, 0, false);
    match group_of(s) {
        Ok(group) => {
            let start = crate::grammar::group_start(s);
            let (name, end) = group_name_at(s, start)->Ok_0;
            let colon = crate::grammar::scan(s, end, crate::grammar::Class::Space);
            lemma_entries_walkable(s, colon + 1, true);
            let members = entries_from(s, colon + 1, true)->Ok_0;
            lemma_contacts_sound(members, 0);
            assert(tree.children[0] == group);
            assert(group.children[0] == name);
            assert(name.children.len() == 1);
        },
        Err(_) => {
            let contacts = entries_from(s, 0, false)->Ok_0;
            lemma_contacts_sound(contacts, 0);
            assert(tree.children[0] == crate::grammar::contact_list_of(s));
        },
    }
}

/// Parsing a single contact fails exactly where the text holds no entry,
/// and then with `Empty`.
pub proof fn a_contact_fails_only_as_empty(text: Seq<char>)
    ensures
        single_contact(text) is Err <==> !has_entry(text),
        single_contact(text) matches Err(error) ==> error == Error::Empty,
{
    if !is_blank(text) {
        let s = crate::text::trim(text);
        let tree = crate::grammar::contact_of(s);
        lemma_skip_filler(s, 0);
        if skip_filler(s, 0) < s.len() {
            lemma_contact_walkable(s, skip_filler(s, 0));
            lemma_walk_is_sound(tree.children, 0, EmailView::fresh(Seq::empty()));
        } else {
            assert(tree.children[0].text.len() == 0);
        }
    }
}

/// Adding the absent contacts of some entries never fails.
pub proof fn adding_never_fails(contacts: Seq<ContactView>, entries: Seq<Seq<char>>, i: int)
    ensures
        with_absent(contacts, entries, i) is Ok,
    decreases entries.len() - i,
{
    if 0 <= i < entries.len() {
        a_contact_fails_only_as_empty(entries[i]);
        match single_contact(entries[i]) {
            Ok(contact) => {
                adding_never_fails(contacts.push(contact), entries, i + 1);
                adding_never_fails(contacts, entries, i + 1);
            },
            Err(_) => {
                adding_never_fails(contacts, entries, i + 1);
            },
        }
    }
}

/// Repair never fails.
pub proof fn repair_never_fails(input: Seq<char>, candidate: AddressListView)
    ensures
        repaired(input, candidate) is Ok,
{
    let rewrite = crate::repair::rewritten(input);
    every_text_has_a_candidate(crate::repair::without_commas(rewrite));
    if let Ok(other) = candidate_of(crate::repair::without_commas(rewrite)) {
        adding_never_fails(
            other.contacts(),
            crate::repair::expanded(crate::repair::comma_entries(rewrite)),
            0,
        );
    }
    adding_never_fails(
        candidate.contacts(),
        crate::repair::expanded(crate::repair::comma_entries(input)),
        0,
    );
}

/// Parsing an address list fails on blank text and on no other, and then
/// with `Empty`: text that cannot be structured is garbage, not an error.
pub proof fn parsing_fails_on_blank_text_only(text: Seq<char>)
    ensures
        address_list(text) is Err <==> is_blank(text),
        address_list(text) matches Err(error) ==> error == Error::Empty,
{
    if !is_blank(text) {
        every_text_has_a_candidate(crate::text::trim(text));
        if let Ok(candidate) = candidate_of(crate::text::trim(text)) {
            repair_never_fails(crate::text::trim(text), candidate);
        }
    }
}

} // verus!
