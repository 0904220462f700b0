//! Permissive extraction of contacts from the address lists of email headers.
//!
//! Header values such as `From`, `To` and `Cc` are nominally structured, but
//! real mail routinely breaks the rules. This library recovers as many
//! contacts as it can and keeps what it cannot structure as garbage entries
//! rather than failing.
//!
//! Parsing runs in three stages. The [`engine`] turns text into the parse
//! tree that the [`grammar`] gives for it. The [`builder`] walks the tree
//! into contacts, groups and address lists. The [`repair`] heuristics then
//! compare the result with the text and recover contacts that were lost to
//! delimiters the grammar did not expect.

pub mod address_list;
pub mod builder;
pub mod engine;
pub mod error;
pub mod garbage;
pub mod grammar;
pub mod laws;
pub mod parser;
pub mod pattern;
pub mod permissive;
pub mod render;
pub mod repair;
pub mod text;
pub mod tree;

pub use crate::address_list::{
    AddressList, Contact, Contactish, Contacts, Contactsish, DeepEq, EmailContact, GarbageContact,
    Group,
};
pub use crate::parser::{parse_address_list, parse_contact, parse_optional_address_list};
