//! What holds of the two equalities and of the repair heuristics, whatever
//! the input.

use crate::address_list::{
    same_contacts, same_emails, AddressList, AddressListView, Contact, ContactView, DeepEq,
};
use crate::repair::{augmented, is_present, with_absent};
use vstd::prelude::*;

verus! {

/// Two contacts are deep-equal exactly when they are the same contact.
pub proof fn contact_deep_eq_is_identity(a: ContactView, b: ContactView)
    ensures
        a.same_fields(b) <==> a == b,
{
}

/// Two sequences of contacts are deep-equal position by position exactly
/// when they are the same sequence.
pub proof fn contacts_deep_eq_is_identity(a: Seq<ContactView>, b: Seq<ContactView>)
    ensures
        same_contacts(a, b) <==> a == b,
{
    if same_contacts(a, b) {
        assert forall|i: int| 0 <= i < a.len() implies a[i] == b[i] by {
            contact_deep_eq_is_identity(a[i], b[i]);
        }
        assert(a =~= b);
    }
    if a == b {
        assert forall|i: int| 0 <= i < a.len() implies (#[trigger] a[i]).same_fields(b[i]) by {
            contact_deep_eq_is_identity(a[i], b[i]);
        }
    }
}

/// Two address lists are deep-equal exactly when they are the same list.
pub proof fn list_deep_eq_is_identity(a: AddressListView, b: AddressListView)
    ensures
        a.same_fields(b) <==> a == b,
{
    contacts_deep_eq_is_identity(a.contacts(), b.contacts());
}

/// Deep equality of contacts is reflexive.
pub proof fn contact_deep_eq_reflexive(a: Contact)
    ensures
        a.deep_eq_spec(&a),
{
}

/// Deep equality of contacts is symmetric.
pub proof fn contact_deep_eq_symmetric(a: Contact, b: Contact)
    ensures
        a.deep_eq_spec(&b) == b.deep_eq_spec(&a),
{
}

/// Deep equality of contacts is transitive.
pub proof fn contact_deep_eq_transitive(a: Contact, b: Contact, c: Contact)
    ensures
        a.deep_eq_spec(&b) && b.deep_eq_spec(&c) ==> a.deep_eq_spec(&c),
{
}

/// Deep equality of address lists is reflexive.
pub proof fn list_deep_eq_reflexive(a: AddressList)
    ensures
        a.deep_eq_spec(&a),
{
    list_deep_eq_is_identity(a@, a@);
}

/// Deep equality of address lists is symmetric.
pub proof fn list_deep_eq_symmetric(a: AddressList, b: AddressList)
    ensures
        a.deep_eq_spec(&b) == b.deep_eq_spec(&a),
{
    list_deep_eq_is_identity(a@, b@);
    list_deep_eq_is_identity(b@, a@);
}

/// Deep equality of address lists is transitive.
pub proof fn list_deep_eq_transitive(a: AddressList, b: AddressList, c: AddressList)
    ensures
        a.deep_eq_spec(&b) && b.deep_eq_spec(&c) ==> a.deep_eq_spec(&c),
{
    list_deep_eq_is_identity(a@, b@);
    list_deep_eq_is_identity(b@, c@);
    list_deep_eq_is_identity(a@, c@);
}

/// Shallow equality of contacts is an equivalence as well: it compares the
/// email addresses, and only them.
pub proof fn contact_shallow_eq_is_equivalence(a: ContactView, b: ContactView, c: ContactView)
    ensures
        a.same_email(a),
        a.same_email(b) == b.same_email(a),
        a.same_email(b) && b.same_email(c) ==> a.same_email(c),
        a.same_fields(b) ==> a.same_email(b),
{
}

/// Shallow equality of address lists follows from deep equality.
pub proof fn list_deep_eq_implies_shallow_eq(a: AddressListView, b: AddressListView)
    ensures
        a.same_fields(b) ==> a.same_emails(b),
{
    if a.same_fields(b) {
        assert forall|i: int| 0 <= i < a.contacts().len() implies (#[trigger] a.contacts()[i]).same_email(
            b.contacts()[i],
        ) by {
            assert(a.contacts()[i].same_fields(b.contacts()[i]));
        }
    }
}

/// Whether the contacts from `from` on are email contacts, none of them
/// shallow-equal to a contact before it.
pub open spec fn added_are_new(contacts: Seq<ContactView>, from: int) -> bool {
    forall|k: int|
        from <= k < contacts.len() ==> (#[trigger] contacts[k]) is Email && !is_present(
            contacts.take(k),
            contacts[k],
        )
}

/// Adding the absent contacts of some entries keeps the contacts that were
/// there, in their places, and adds after them email contacts only, none of
/// them shallow-equal to a contact that stands before it, be it one that was
/// there or one that was added.
pub proof fn added_contacts_are_new(contacts: Seq<ContactView>, entries: Seq<Seq<char>>, i: int)
    ensures
        with_absent(contacts, entries, i) matches Ok(all) ==> {
            &&& contacts.len() <= all.len()
            &&& all.take(contacts.len() as int) == contacts
            &&& added_are_new(all, contacts.len() as int)
        },
    decreases entries.len() - i,
{
    if let Ok(all) = with_absent(contacts, entries, i) {
        if !(0 <= i < entries.len()) {
            assert(all.take(contacts.len() as int) =~= contacts);
        } else {
            match crate::parser::single_contact(entries[i]) {
                Ok(contact) => {
                    if contact is Email && !is_present(contacts, contact) {
                        let more = contacts.push(contact);
                        added_contacts_are_new(more, entries, i + 1);
                        assert(all.take(contacts.len() as int) =~= all.take(
                            more.len() as int,
                        ).take(contacts.len() as int));
                        assert(more.take(contacts.len() as int) =~= contacts);
                        assert(all[contacts.len() as int] == more[contacts.len() as int]);
                    } else {
                        added_contacts_are_new(contacts, entries, i + 1);
                    }
                },
                Err(_) => {
                    added_contacts_are_new(contacts, entries, i + 1);
                },
            }
        }
    }
}

/// Repair never inserts a contact that is shallow-equal to one already
/// present in the list that it augments: the list keeps its contacts, and
/// each contact after them is an email contact whose email no contact before
/// it has.
pub proof fn augmenting_adds_no_duplicate(list: AddressListView, entries: Seq<Seq<char>>)
    ensures
        augmented(list, entries) matches Ok(more) ==> {
            &&& more.group_name() == list.group_name()
            &&& list.contacts().len() <= more.contacts().len()
            &&& more.contacts().take(list.contacts().len() as int) == list.contacts()
            &&& added_are_new(more.contacts(), list.contacts().len() as int)
        },
{
    added_contacts_are_new(list.contacts(), entries, 0);
}

} // verus!
