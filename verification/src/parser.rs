//! The two entry points: a whole address list, with repair, and a single
//! contact, without.

use crate::address_list::{AddressList, AddressListView, Contact, ContactView};
use crate::builder::{build_address_list, build_contact, list_is};
use crate::engine::parse;
use crate::error::Error;
use crate::garbage::{
    candidate_is_garbage, has_no_address, has_no_at, lemma_trim_has_no_address,
    no_at_means_no_address, only_garbage, single_contact_is_garbage,
};
use crate::permissive::{
    a_contact_fails_only_as_empty, every_text_has_a_candidate, parsing_fails_on_blank_text_only,
};
use crate::repair::{repair, repaired};
use crate::text::{is_blank, lemma_trim_blank, trim, trimmed};
use crate::tree::Rule;
use vstd::prelude::*;

verus! {

/// What the grammar and the builder make of a text, before any repair.
pub open spec fn candidate_of(s: Seq<char>) -> Result<AddressListView, Error> {
    crate::builder::address_list_of(crate::grammar::address_list_of(s))
}

/// Whether the text holds an entry: anything but white space, separators
/// and other fillers.
pub open spec fn has_entry(text: Seq<char>) -> bool {
    !is_blank(text) && crate::grammar::skip_filler(trim(text), 0) < trim(text).len()
}

/// The single contact of a text: the first contact of the trimmed text.
/// There is none in a blank text, nor in one that holds nothing but
/// separators and other fillers.
pub open spec fn single_contact(text: Seq<char>) -> Result<ContactView, Error> {
    if is_blank(text) {
        Err(Error::Empty)
    } else {
        match crate::builder::contact_of(crate::grammar::contact_of(trim(text))) {
            Some(built) => built,
            None => Err(Error::Empty),
        }
    }
}

/// The address list of a text: what the grammar and the builder make of
/// the trimmed text, repaired. A blank text holds none.
pub open spec fn address_list(text: Seq<char>) -> Result<AddressListView, Error> {
    if is_blank(text) {
        Err(Error::Empty)
    } else {
        match candidate_of(trim(text)) {
            Err(error) => Err(error),
            Ok(candidate) => repaired(trim(text), candidate),
        }
    }
}

/// Whether the contact that was parsed is the single contact of the text.
pub open spec fn contact_is(parsed: Result<Contact, Error>, expected: Result<ContactView, Error>) -> bool {
    match parsed {
        Ok(contact) => expected == Ok::<ContactView, Error>(contact@),
        Err(error) => expected == Err::<ContactView, Error>(error),
    }
}

/// Parses a text as an address list, without trimming or repairing it.
pub fn parse_candidate(text: &str) -> (r: Result<AddressList, Error>)
    ensures
        list_is(r, candidate_of(text@)),
        r is Ok,
{
    proof {
        every_text_has_a_candidate(text@);
    }
    match parse(Rule::AddressList, text) {
        Err(error) => Err(Error::SyntaxError(error)),
        Ok(node) => build_address_list(&node),
    }
}

/// Get an [`AddressList`] from a string.
///
/// Tries its best to come up with the most reasonable parsed address list
/// for a given input, however much it breaks the rules. If there is nothing to
/// parse, this function fails with [`Error::Empty`]. It fails in no other
/// way: what cannot be structured is kept as garbage. Of a text in which no
/// address starts, and so of any text without an `@`, all contacts are
/// garbage.
pub fn parse_address_list(address_list: &str) -> (r: Result<AddressList, Error>)
    ensures
        list_is(r, self::address_list(address_list@)),
        r is Err <==> is_blank(address_list@),
        r matches Err(error) ==> error == Error::Empty,
        has_no_address(address_list@) || has_no_at(address_list@) ==> (r matches Ok(list)
            ==> only_garbage(list@.contacts())),
{
    let input = trimmed(address_list);
    proof {
        lemma_trim_blank(address_list@);
        parsing_fails_on_blank_text_only(address_list@);
        if has_no_at(address_list@) {
            no_at_means_no_address(address_list@);
        }
        if has_no_address(address_list@) {
            lemma_trim_has_no_address(address_list@);
            candidate_is_garbage(input@);
        }
    }
    if input.as_str().is_empty() {
        return Err(Error::Empty);
    }
    match parse_candidate(input.as_str()) {
        Err(error) => Err(error),
        Ok(candidate) => repair(input.as_str(), candidate),
    }
}

/// Get an [`AddressList`] from the value of a header that may be absent.
///
/// An absent value fails with [`Error::Empty`], as a blank one does. Any
/// other value is parsed as [`parse_address_list`] parses it.
pub fn parse_optional_address_list(address_list: Option<&str>) -> (r: Result<AddressList, Error>)
    ensures
        match address_list {
            Some(text) => list_is(r, self::address_list(text@)) && (r is Err <==> is_blank(text@)),
            None => r is Err,
        },
        r matches Err(error) ==> error == Error::Empty,
{
    match address_list {
        Some(text) => parse_address_list(text),
        None => Err(Error::Empty),
    }
}

/// Parse only a single [`Contact`], ignore the rest.
///
/// Just like [`parse_address_list`], this function fails with
/// [`Error::Empty`] when there is nothing to parse: here, when the text holds
/// no entry. It fails in no other way. The contact of a text in which no
/// address starts, and so of any text without an `@`, is garbage.
pub fn parse_contact(contact: &str) -> (r: Result<Contact, Error>)
    ensures
        contact_is(r, single_contact(contact@)),
        r is Err <==> !has_entry(contact@),
        r matches Err(error) ==> error == Error::Empty,
        has_no_address(contact@) || has_no_at(contact@) ==> (r matches Ok(found) ==> found@
            is Garbage),
{
    let input = trimmed(contact);
    proof {
        lemma_trim_blank(contact@);
        a_contact_fails_only_as_empty(contact@);
        if has_no_at(contact@) {
            no_at_means_no_address(contact@);
        }
        if has_no_address(contact@) {
            single_contact_is_garbage(contact@);
        }
    }
    if input.as_str().is_empty() {
        return Err(Error::Empty);
    }
    match parse(Rule::Contact, input.as_str()) {
        Err(error) => Err(Error::SyntaxError(error)),
        Ok(node) => match build_contact(&node) {
            Some(built) => built,
            None => Err(Error::Empty),
        },
    }
}

} // verus!
