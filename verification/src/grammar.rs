//! The permissive grammar of address lists, as functions from text to parse
//! trees.
//!
//! The grammar is written for mail as it is found, not as it should be. It
//! never rejects a non-empty header: what it cannot structure becomes a
//! `garbage` node. Every function here is a ghost function that says what
//! the tree of a text is; the engine that runs the grammar is proved against
//! them.
//!
//! Positions are indices into the text, counted in characters.

use crate::error::SyntaxError;
use crate::text::{drop_space, is_space};
use crate::tree::{Rule, Tree};
use vstd::prelude::*;

verus! {

/// `,` and `;` separate the entries of a list.
pub open spec fn is_separator(c: char) -> bool {
    c == ',' || c == ';'
}

/// Double and single quotes both delimit quoted text.
pub open spec fn is_quote(c: char) -> bool {
    c == '"' || c == '\''
}

/// The characters that an address is made of: anything but white space,
/// separators, colons, angle brackets, parentheses and quotes.
pub open spec fn is_address(c: char) -> bool {
    !is_space(c) && !is_separator(c) && !is_quote(c) && c != ':' && c != '<' && c != '>' && c
        != '(' && c != ')'
}

/// The characters of a display name that is not quoted.
pub open spec fn is_display(c: char) -> bool {
    c != '<' && c != '>' && c != '@' && c != '"'
}

/// The characters of a group name that is not quoted.
pub open spec fn is_group_name(c: char) -> bool {
    !is_separator(c) && !is_quote(c) && c != ':' && c != '<' && c != '>' && c != '@' && c != '('
        && c != ')'
}

/// A set of characters that a scan runs over.
#[derive(Clone, Copy, Debug)]
pub enum Class {
    /// White space.
    Space,
    /// Quotes.
    Quote,
    /// White space and quotes.
    SpaceOrQuote,
    /// White space and commas.
    SpaceOrComma,
    /// The characters of an address.
    Address,
    /// The characters of an address but `@`.
    Domain,
    /// The characters of an unquoted display name.
    Display,
    /// The characters of an unquoted group name.
    GroupName,
    /// Everything but separators.
    Entry,
    /// One character.
    Only(char),
    /// Everything but one character.
    Except(char),
}

impl Class {
    pub open spec fn has(self, c: char) -> bool {
        match self {
            Class::Space => is_space(c),
            Class::Quote => is_quote(c),
            Class::SpaceOrQuote => is_space(c) || is_quote(c),
            Class::SpaceOrComma => is_space(c) || c == ',',
            Class::Address => is_address(c),
            Class::Domain => is_address(c) && c != '@',
            Class::Display => is_display(c),
            Class::GroupName => is_group_name(c),
            Class::Entry => !is_separator(c),
            Class::Only(x) => c == x,
            Class::Except(x) => c != x,
        }
    }
}

/// The first position at or after `p` whose character is not of the class,
/// or the length of the text if there is none.
pub open spec fn scan(s: Seq<char>, p: int, class: Class) -> int
    decreases s.len() - p,
{
    if 0 <= p < s.len() && class.has(s[p]) {
        scan(s, p + 1, class)
    } else {
        p
    }
}

/// Whether the character at `p` is `c`.
pub open spec fn at(s: Seq<char>, p: int, c: char) -> bool {
    0 <= p < s.len() && s[p] == c
}

/// The text between two positions.
pub open spec fn span(s: Seq<char>, from: int, to: int) -> Seq<char> {
    s.subrange(from, to)
}

/// The leaf of a rule that matched the text between two positions.
pub open spec fn leaf(rule: Rule, s: Seq<char>, from: int, to: int) -> Tree {
    Tree::leaf(rule, span(s, from, to))
}

/// The end of the address that starts at `p`, if there is one: a run of
/// address characters with an `@` that is neither its first nor its last
/// character.
pub open spec fn address_end(s: Seq<char>, p: int) -> Option<int> {
    let end = scan(s, p, Class::Address);
    let sign = scan(s, p, Class::Domain);
    if p < sign && sign + 1 < end {
        Some(end)
    } else {
        None
    }
}

/// Whether the text between two positions is ASCII.
pub open spec fn is_plain(s: Seq<char>, from: int, to: int) -> bool {
    forall|i: int| from <= i < to ==> (#[trigger] s[i] as u32) < 128
}

/// An address of ASCII characters is a `mailbox`, any other an `email`.
pub open spec fn address_rule(s: Seq<char>, from: int, to: int) -> Rule {
    if is_plain(s, from, to) {
        Rule::Mailbox
    } else {
        Rule::Email
    }
}

/// The rule of an address in angle brackets.
pub open spec fn angle_rule(rule: Rule) -> Rule {
    if rule == Rule::Mailbox {
        Rule::MailboxAngle
    } else {
        Rule::EmailAngle
    }
}

/// The leaf of the address between two positions.
pub open spec fn address_leaf(s: Seq<char>, from: int, to: int) -> Tree {
    leaf(address_rule(s, from, to), s, from, to)
}

/// The position of the `)` that closes `depth` open parentheses, scanning
/// from `p`, or the length of the text if they are never closed.
pub open spec fn closing(s: Seq<char>, p: int, depth: int) -> int
    decreases s.len() - p,
{
    if !(0 <= p < s.len()) {
        s.len() as int
    } else if s[p] == '(' {
        closing(s, p + 1, depth + 1)
    } else if s[p] == ')' {
        if depth <= 1 {
            p
        } else {
            closing(s, p + 1, depth - 1)
        }
    } else {
        closing(s, p + 1, depth)
    }
}

/// A comment at `p`: parentheses that balance. Gives the positions between
/// which the text of the comment lies; the comment ends one further.
pub open spec fn comment_at(s: Seq<char>, p: int) -> Option<(int, int)> {
    if at(s, p, '(') && closing(s, p + 1, 1) < s.len() {
        Some((p + 1, closing(s, p + 1, 1)))
    } else {
        None
    }
}

/// Quoted text at `p`: one or more quotes of one kind, text without that
/// quote, and one or more quotes of that kind again. Gives the positions
/// between which the quoted text lies, and the end of the closing quotes.
pub open spec fn quoted_at(s: Seq<char>, p: int) -> Option<(int, int, int)> {
    if 0 <= p < s.len() && is_quote(s[p]) {
        let from = scan(s, p, Class::Only(s[p]));
        let to = scan(s, from, Class::Except(s[p]));
        if from < to < s.len() {
            Some((from, to, scan(s, to, Class::Only(s[p]))))
        } else {
            None
        }
    } else {
        None
    }
}

/// Angle brackets at `p` with nothing but white space between them. Gives
/// the position after them.
pub open spec fn empty_angle(s: Seq<char>, p: int) -> Option<int> {
    if at(s, p, '<') && at(s, scan(s, p + 1, Class::Space), '>') {
        Some(scan(s, p + 1, Class::Space) + 1)
    } else {
        None
    }
}

/// Whether the character stands between entries without being one: white
/// space, a separator or a stray `>`.
pub open spec fn is_filler(c: char) -> bool {
    is_space(c) || is_separator(c) || c == '>'
}

/// The position at or after `p` where the next entry of a list starts:
/// fillers and empty angle brackets are passed over.
pub open spec fn skip_filler(s: Seq<char>, p: int) -> int
    decreases s.len() - p,
{
    if !(0 <= p < s.len()) {
        p
    } else if is_filler(s[p]) {
        skip_filler(s, p + 1)
    } else {
        match empty_angle(s, p) {
            Some(end) => if end > p {
                skip_filler(s, end)
            } else {
                p
            },
            None => p,
        }
    }
}

/// An address in angle brackets at `p`. White space and quotes may lead the
/// address, quotes may follow it. Then either the rest of a domain that
/// white space split off, and the closing bracket, which gives a leaf for the
/// address and one for the rest; or white space, commas and a closing bracket
/// that may be missing, which gives one node for the brackets with the
/// address inside.
pub open spec fn angle_at(s: Seq<char>, p: int) -> Option<(Seq<Tree>, int)> {
    let from = scan(s, p + 1, Class::SpaceOrQuote);
    if !at(s, p, '<') {
        None
    } else {
        match address_end(s, from) {
            None => None,
            Some(to) => {
                let quotes = scan(s, to, Class::Quote);
                let rest = scan(s, quotes, Class::Space);
                let rest_end = scan(s, rest, Class::Domain);
                let close = scan(s, rest_end, Class::Space);
                let trail = scan(s, quotes, Class::SpaceOrComma);
                let end = if at(s, trail, '>') {
                    trail + 1
                } else {
                    trail
                };
                if quotes < rest < rest_end && at(s, close, '>') {
                    Some(
                        (
                            seq![
                                address_leaf(s, from, to),
                                leaf(Rule::GarbageNongreedy, s, rest, rest_end),
                            ],
                            close + 1,
                        ),
                    )
                } else {
                    Some(
                        (
                            seq![
                                Tree {
                                    rule: angle_rule(address_rule(s, from, to)),
                                    text: span(s, p, end),
                                    children: seq![address_leaf(s, from, to)],
                                },
                            ],
                            end,
                        ),
                    )
                }
            },
        }
    }
}

/// A comment after white space, if there is one at `p`.
pub open spec fn comment_tail(s: Seq<char>, p: int) -> (Seq<Tree>, int) {
    match comment_at(s, scan(s, p, Class::Space)) {
        Some((from, to)) => (seq![leaf(Rule::Comment, s, from, to)], to + 1),
        None => (Seq::empty(), p),
    }
}

/// An address in angle brackets with the comment that may follow it.
pub open spec fn address_part(s: Seq<char>, p: int) -> Option<(Seq<Tree>, int)> {
    match angle_at(s, p) {
        None => None,
        Some((nodes, end)) => Some((nodes + comment_tail(s, end).0, comment_tail(s, end).1)),
    }
}

/// A bare address at `p`. An address in angle brackets may follow it and
/// belongs to the same contact; else a comment may follow, which is then
/// taken for the name.
pub open spec fn bare_form(s: Seq<char>, p: int) -> Option<(Seq<Tree>, int)> {
    match address_end(s, p) {
        None => None,
        Some(to) => {
            let next = scan(s, to, Class::Space);
            match address_part(s, next) {
                Some((nodes, end)) => Some((seq![address_leaf(s, p, to)] + nodes, end)),
                None => match comment_at(s, next) {
                    Some((from, close)) => Some(
                        (
                            seq![
                                address_leaf(s, p, to),
                                leaf(Rule::MalformedCommentName, s, from, close),
                            ],
                            close + 1,
                        ),
                    ),
                    None => Some((seq![address_leaf(s, p, to)], to)),
                },
            }
        },
    }
}

/// The node of a quoted name: the quotes with the name inside.
pub open spec fn quoted_name(s: Seq<char>, p: int, from: int, to: int, end: int) -> Tree {
    Tree { rule: Rule::Name, text: span(s, p, end), children: seq![leaf(Rule::Value, s, from, to)] }
}

/// Quoted text at `p`. Before an address in angle brackets it is a name,
/// and a comment may stand between the two. Else it is a contact only if
/// the quoted text is an address.
pub open spec fn quoted_form(s: Seq<char>, p: int) -> Option<(Seq<Tree>, int)> {
    match quoted_at(s, p) {
        None => None,
        Some((from, to, end)) => {
            let (comment, next) = comment_tail(s, end);
            match address_part(s, scan(s, next, Class::Space)) {
                Some((nodes, last)) => Some(
                    (seq![quoted_name(s, p, from, to, end)] + comment + nodes, last),
                ),
                None => if address_end(s, from) == Some(to) {
                    Some((seq![address_leaf(s, from, to)], end))
                } else {
                    None
                },
            }
        },
    }
}

/// Unquoted text at `p`, up to an angle bracket. Before an address in angle
/// brackets it is a name, whatever it holds. Before empty angle brackets and
/// a bare address it is the name of that address.
pub open spec fn display_form(s: Seq<char>, p: int) -> Option<(Seq<Tree>, int)> {
    let to = scan(s, p, Class::Display);
    if to <= p {
        None
    } else {
        match address_part(s, to) {
            Some((nodes, end)) => Some((seq![leaf(Rule::Malformed, s, p, to)] + nodes, end)),
            None => match empty_angle(s, to) {
                None => None,
                Some(after) => {
                    let from = scan(s, after, Class::Space);
                    match address_end(s, from) {
                        None => None,
                        Some(end) => Some(
                            (
                                seq![leaf(Rule::Malformed, s, p, to), address_leaf(s, from, end)],
                                end,
                            ),
                        ),
                    }
                },
            },
        }
    }
}

/// The forms of a contact that hold an address, in the order in which they
/// are tried.
pub open spec fn structured_at(s: Seq<char>, p: int) -> Option<(Seq<Tree>, int)> {
    if address_part(s, p) is Some {
        address_part(s, p)
    } else if bare_form(s, p) is Some {
        bare_form(s, p)
    } else if quoted_form(s, p) is Some {
        quoted_form(s, p)
    } else {
        display_form(s, p)
    }
}

/// What cannot be structured is garbage, up to the next separator.
pub open spec fn garbage_form(s: Seq<char>, p: int) -> (Seq<Tree>, int) {
    let end = scan(s, p, Class::Entry);
    (seq![leaf(Rule::Garbage, s, p, end)], end)
}

/// The children of the contact at `p` and the position where it ends.
pub open spec fn contact_at(s: Seq<char>, p: int) -> (Seq<Tree>, int) {
    match structured_at(s, p) {
        Some(found) => found,
        None => garbage_form(s, p),
    }
}

/// The node of a contact between two positions.
pub open spec fn contact_node(s: Seq<char>, from: int, to: int, children: Seq<Tree>) -> Tree {
    Tree { rule: Rule::Contact, text: span(s, from, to), children }
}

/// What a list of contacts gives: the contacts, or the position of the
/// entry that a strict list does not accept.
pub type Entries = Result<Seq<Tree>, int>;

/// The entries with more in front of them.
pub open spec fn after(front: Seq<Tree>, entries: Entries) -> Entries {
    match entries {
        Ok(rest) => Ok(front + rest),
        Err(position) => Err(position),
    }
}

/// The contacts of the list that starts at `p` and runs to the end of the
/// text. A strict list, as the members of a group are, fails at the first
/// entry that holds no address. Any other list takes such an entry as
/// garbage and never fails.
pub open spec fn entries_from(s: Seq<char>, p: int, strict: bool) -> Entries
    decreases s.len() - p,
{
    let start = skip_filler(s, p);
    if !(0 <= p <= start < s.len()) {
        Ok(Seq::empty())
    } else if strict && structured_at(s, start) is None {
        Err(start)
    } else {
        let end = contact_at(s, start).1;
        if !(start < end <= s.len()) {
            Ok(Seq::empty())
        } else {
            after(
                seq![contact_node(s, start, end, contact_at(s, start).0)],
                entries_from(s, end, strict),
            )
        }
    }
}

/// The node of the list of contacts that starts at `p`.
pub open spec fn list_node(s: Seq<char>, p: int, contacts: Seq<Tree>) -> Tree {
    Tree { rule: Rule::ContactList, text: span(s, p, s.len() as int), children: contacts }
}

/// Where a group starts: after white space and one `<` that may stand
/// before it.
pub open spec fn group_start(s: Seq<char>) -> int {
    let first = scan(s, 0, Class::Space);
    if at(s, first, '<') {
        scan(s, first + 1, Class::Space)
    } else {
        first
    }
}

/// The name of a group at `p`: quoted text, or unquoted text without the
/// white space at its end. Gives the node of the name and the position
/// after it, or the position at which no name was found.
pub open spec fn group_name_at(s: Seq<char>, p: int) -> Result<(Tree, int), int> {
    if 0 <= p < s.len() && is_quote(s[p]) {
        match quoted_at(s, p) {
            Some((from, to, end)) => Ok((quoted_name(s, p, from, to, end), end)),
            None => Err(p),
        }
    } else {
        let end = scan(s, p, Class::GroupName);
        let to = drop_space(s, p, end);
        if p < to {
            Ok(
                (
                    Tree {
                        rule: Rule::Name,
                        text: span(s, p, to),
                        children: seq![leaf(Rule::Value, s, p, to)],
                    },
                    end,
                ),
            )
        } else {
            Err(p)
        }
    }
}

/// A group: a name, a colon, and a strict list of members that runs to the
/// end of the text. Gives the node of the group, or the position at which
/// the text stopped being one.
pub open spec fn group_of(s: Seq<char>) -> Result<Tree, int> {
    let start = group_start(s);
    match group_name_at(s, start) {
        Err(position) => Err(position),
        Ok((name, end)) => {
            let colon = scan(s, end, Class::Space);
            if !at(s, colon, ':') {
                Err(colon)
            } else {
                match entries_from(s, colon + 1, true) {
                    Err(position) => Err(position),
                    Ok(members) => Ok(
                        Tree {
                            rule: Rule::Group,
                            text: span(s, start, s.len() as int),
                            children: seq![name, list_node(s, colon + 1, members)],
                        },
                    ),
                }
            }
        },
    }
}

/// The list of contacts that the whole text is.
pub open spec fn contact_list_of(s: Seq<char>) -> Tree {
    match entries_from(s, 0, false) {
        Ok(contacts) => list_node(s, 0, contacts),
        Err(_) => list_node(s, 0, Seq::empty()),
    }
}

/// An address list: a group if the text is one, else a list of contacts.
pub open spec fn address_list_of(s: Seq<char>) -> Tree {
    Tree {
        rule: Rule::AddressList,
        text: s,
        children: seq![
            match group_of(s) {
                Ok(group) => group,
                Err(_) => contact_list_of(s),
            },
        ],
    }
}

/// The first contact of the text. Where the text holds nothing but fillers,
/// the contact holds empty garbage.
pub open spec fn contact_of(s: Seq<char>) -> Tree {
    let start = skip_filler(s, 0);
    if 0 <= start < s.len() {
        contact_node(s, start, contact_at(s, start).1, contact_at(s, start).0)
    } else {
        contact_node(s, start, start, seq![leaf(Rule::Garbage, s, start, start)])
    }
}

/// The parse tree of a text under a rule. Address lists, lists of contacts
/// and contacts match any text. A group matches only a text that is one.
/// The other rules match only inside these and cannot be asked for.
pub open spec fn parse_tree(rule: Rule, s: Seq<char>) -> Result<Tree, SyntaxError> {
    match rule {
        Rule::AddressList => Ok(address_list_of(s)),
        Rule::ContactList => Ok(contact_list_of(s)),
        Rule::Contact => Ok(contact_of(s)),
        Rule::Group => match group_of(s) {
            Ok(group) => Ok(group),
            Err(position) => Err(SyntaxError { rule, position: position as usize }),
        },
        _ => Err(SyntaxError { rule, position: 0 }),
    }
}

} // verus!
