//! Text in which no address starts holds no address: whatever is made of it
//! is garbage.

use crate::address_list::{AddressListView, ContactView};
use crate::builder::contacts_from;
use crate::engine::lemma_scan;
use crate::error::Error;
use crate::grammar::{
    address_end, angle_at, bare_form, contact_at, display_form, entries_from, group_name_at,
    group_of, is_address, quoted_form, scan, skip_filler, span, structured_at, Class,
};
use crate::parser::{candidate_of, single_contact};
use crate::pattern::occurs_in;
use crate::permissive::{every_text_has_a_candidate, lemma_skip_filler};
use crate::repair::{
    augmented, drop_commas, expanded, expanded_entry, piece, pieces_from, strung, with_absent,
    without_commas,
};
use crate::text::{is_blank, lemma_drop_space_bounds, lemma_skip_space_bounds, trim};
use crate::tree::{Rule, Tree};
use vstd::prelude::*;

verus! {

/// Whether the text holds no `@`.
pub open spec fn has_no_at(s: Seq<char>) -> bool {
    !s.contains('@')
}

/// Whether no address starts anywhere in the text: it holds no run of
/// address characters with an `@` inside.
pub open spec fn has_no_address(s: Seq<char>) -> bool {
    forall|p: int| (#[trigger] address_end(s, p)) is None
}

/// Whether no address starts in any of the texts.
pub open spec fn none_has_address(entries: Seq<Seq<char>>) -> bool {
    forall|i: int| 0 <= i < entries.len() ==> has_no_address(#[trigger] entries[i])
}

/// Whether every contact is garbage.
pub open spec fn only_garbage(contacts: Seq<ContactView>) -> bool {
    forall|i: int| 0 <= i < contacts.len() ==> (#[trigger] contacts[i]) is Garbage
}

/// Whether a contact node holds garbage that is not empty, and nothing
/// else.
pub open spec fn is_garbage_node(node: Tree) -> bool {
    &&& node.children.len() == 1
    &&& node.children[0].rule == Rule::Garbage
    &&& node.children[0].text.len() > 0
}

/// Whether every node is a contact node of garbage.
pub open spec fn only_garbage_nodes(nodes: Seq<Tree>) -> bool {
    forall|i: int| 0 <= i < nodes.len() ==> is_garbage_node(#[trigger] nodes[i])
}

/// In a text without `@` there is nothing to tell a domain from an address.
proof fn lemma_scans_agree(s: Seq<char>, p: int)
    requires
        has_no_at(s),
    ensures
        scan(s, p, Class::Domain) == scan(s, p, Class::Address),
    decreases s.len() - p,
{
    if 0 <= p < s.len() {
        assert(s[p] != '@') by {
            if s[p] == '@' {
                assert(s.contains('@'));
            }
        }
        if Class::Address.has(s[p]) {
            lemma_scans_agree(s, p + 1);
        }
    }
}

/// No address starts in a text without `@`.
pub proof fn no_at_means_no_address(s: Seq<char>)
    requires
        has_no_at(s),
    ensures
        has_no_address(s),
{
    assert forall|p: int| (#[trigger] address_end(s, p)) is None by {
        lemma_scans_agree(s, p);
    }
}

/// A scan that finds characters of the class up to `to` runs at least that
/// far, and no further where the character at `to` is not of the class.
proof fn lemma_scan_reaches(s: Seq<char>, from: int, to: int, class: Class)
    requires
        0 <= from <= to <= s.len(),
        forall|i: int| from <= i < to ==> class.has(#[trigger] s[i]),
    ensures
        to <= scan(s, from, class),
        to < s.len() && !class.has(s[to]) ==> scan(s, from, class) == to,
    decreases to - from,
{
    if from < to {
        lemma_scan_reaches(s, from + 1, to, class);
    } else {
        lemma_scan(s, from, class);
    }
}

/// An address that starts in a part of a text starts in the text.
proof fn lemma_address_in_part(whole: Seq<char>, from: int, to: int, p: int)
    requires
        0 <= from <= to <= whole.len(),
        address_end(whole.subrange(from, to), p) is Some,
    ensures
        address_end(whole, from + p) is Some,
{
    let part = whole.subrange(from, to);
    if 0 <= p <= part.len() {
        let sign = scan(part, p, Class::Domain);
        let end = scan(part, p, Class::Address);
        lemma_scan(part, p, Class::Domain);
        lemma_scan(part, p, Class::Address);
        assert forall|i: int| from + p <= i < from + sign implies Class::Domain.has(
            #[trigger] whole[i],
        ) by {
            assert(whole[i] == part[i - from]);
        }
        assert forall|i: int| from + p <= i < from + end implies Class::Address.has(
            #[trigger] whole[i],
        ) by {
            assert(whole[i] == part[i - from]);
        }
        assert(whole[from + sign] == part[sign]);
        lemma_scan_reaches(whole, from + p, from + sign, Class::Domain);
        lemma_scan_reaches(whole, from + p, from + end, Class::Address);
    }
}

/// No address starts in a part of a text in which none starts.
pub proof fn lemma_part_has_no_address(whole: Seq<char>, from: int, to: int)
    requires
        has_no_address(whole),
        0 <= from <= to <= whole.len(),
    ensures
        has_no_address(whole.subrange(from, to)),
{
    assert forall|p: int| (#[trigger] address_end(whole.subrange(from, to), p)) is None by {
        if address_end(whole.subrange(from, to), p) is Some {
            lemma_address_in_part(whole, from, to, p);
            assert(address_end(whole, from + p) is None);
        }
    }
}

/// No address starts in what occurs in a text in which none starts.
pub proof fn lemma_occurrence_has_no_address(part: Seq<char>, whole: Seq<char>)
    requires
        has_no_address(whole),
        occurs_in(part, whole),
    ensures
        has_no_address(part),
{
    let k = choose|k: int|
        0 <= k && k + part.len() <= whole.len() && #[trigger] whole.subrange(k, k + part.len())
            == part;
    lemma_part_has_no_address(whole, k, k + part.len());
}

/// Trimming a text starts no address.
pub proof fn lemma_trim_has_no_address(text: Seq<char>)
    requires
        has_no_address(text),
    ensures
        has_no_address(trim(text)),
{
    let from = crate::text::skip_space(text, 0);
    lemma_skip_space_bounds(text, 0);
    lemma_drop_space_bounds(text, from, text.len() as int);
    lemma_part_has_no_address(text, from, crate::text::drop_space(text, from, text.len() as int));
}

/// Two texts in a row, where the first is empty or ends with a character
/// that is none of an address: a scan for the characters of an address, or
/// of a domain, runs in the one as in the row.
proof fn lemma_scan_in_row(front: Seq<char>, back: Seq<char>, p: int, class: Class)
    requires
        class == Class::Address || class == Class::Domain,
        front.len() == 0 || !is_address(front.last()),
        0 <= p,
    ensures
        p < front.len() ==> scan(front + back, p, class) == scan(front, p, class),
        p >= front.len() ==> scan(front + back, p, class) == front.len() + scan(
            back,
            p - front.len(),
            class,
        ),
    decreases front.len() + back.len() - p,
{
    let row = front + back;
    if p < row.len() {
        if p < front.len() {
            assert(row[p] == front[p]);
            if class.has(front[p]) {
                assert(p + 1 < front.len());
                lemma_scan_in_row(front, back, p + 1, class);
            }
        } else {
            assert(row[p] == back[p - front.len()]);
            if class.has(row[p]) {
                lemma_scan_in_row(front, back, p + 1, class);
            }
        }
    }
}

/// No address starts in two such texts in a row where none starts in
/// either.
pub proof fn lemma_row_has_no_address(front: Seq<char>, back: Seq<char>)
    requires
        has_no_address(front),
        has_no_address(back),
        front.len() == 0 || !is_address(front.last()),
    ensures
        has_no_address(front + back),
{
    assert forall|p: int| (#[trigger] address_end(front + back, p)) is None by {
        if 0 <= p {
            lemma_scan_in_row(front, back, p, Class::Address);
            lemma_scan_in_row(front, back, p, Class::Domain);
            if p < front.len() {
                assert(address_end(front, p) is None);
            } else {
                assert(address_end(back, p - front.len()) is None);
            }
        }
    }
}

/// A character that is none of an address starts no address at the end of a
/// text.
pub proof fn lemma_push_has_no_address(s: Seq<char>, c: char)
    requires
        has_no_address(s),
        !is_address(c),
    ensures
        has_no_address(s.push(c)),
{
    let one = seq![c];
    assert forall|p: int| (#[trigger] address_end(one, p)) is None by {
        if p == 0 {
            assert(scan(one, 0, Class::Address) == 0);
        }
    }
    let row = s.push(c);
    assert(row =~= s + one);
    assert forall|p: int| (#[trigger] address_end(row, p)) is None by {
        if 0 <= p <= s.len() {
            let sign = scan(s, p, Class::Domain);
            let end = scan(s, p, Class::Address);
            lemma_scan(s, p, Class::Domain);
            lemma_scan(s, p, Class::Address);
            assert forall|i: int| p <= i < sign implies Class::Domain.has(#[trigger] row[i]) by {
                assert(row[i] == s[i]);
            }
            assert forall|i: int| p <= i < end implies Class::Address.has(#[trigger] row[i]) by {
                assert(row[i] == s[i]);
            }
            if sign < s.len() {
                assert(row[sign] == s[sign]);
            }
            if end < s.len() {
                assert(row[end] == s[end]);
            }
            lemma_scan_reaches(row, p, sign, Class::Domain);
            lemma_scan_reaches(row, p, end, Class::Address);
            assert(address_end(s, p) is None);
        }
    }
}

/// No form of a contact that holds an address matches anywhere in a text in
/// which no address starts.
pub proof fn lemma_nothing_structured(s: Seq<char>, p: int)
    requires
        has_no_address(s),
    ensures
        structured_at(s, p) is None,
{
    assert(address_end(s, scan(s, p + 1, Class::SpaceOrQuote)) is None);
    assert(angle_at(s, p) is None);
    assert(address_end(s, p) is None);
    assert(bare_form(s, p) is None);
    if let Some((from, to, end)) = crate::grammar::quoted_at(s, p) {
        let next = scan(s, crate::grammar::comment_tail(s, end).1, Class::Space);
        assert(address_end(s, scan(s, next + 1, Class::SpaceOrQuote)) is None);
        assert(address_end(s, from) is None);
    }
    assert(quoted_form(s, p) is None);
    let to = scan(s, p, Class::Display);
    assert(address_end(s, scan(s, to + 1, Class::SpaceOrQuote)) is None);
    if let Some(after) = crate::grammar::empty_angle(s, to) {
        assert(address_end(s, scan(s, after, Class::Space)) is None);
    }
    assert(display_form(s, p) is None);
}

/// A list in a text in which no address starts holds contact nodes of
/// garbage only, and a strict list holds none at all.
pub proof fn lemma_entries_are_garbage(s: Seq<char>, p: int, strict: bool)
    requires
        has_no_address(s),
    ensures
        entries_from(s, p, strict) matches Ok(nodes) ==> only_garbage_nodes(nodes) && (strict
            ==> nodes.len() == 0),
    decreases s.len() - p,
{
    let start = skip_filler(s, p);
    if 0 <= p <= start < s.len() {
        lemma_nothing_structured(s, start);
        if !strict {
            let end = contact_at(s, start).1;
            if start < end <= s.len() {
                lemma_entries_are_garbage(s, end, strict);
                let node = crate::grammar::contact_node(s, start, end, contact_at(s, start).0);
                assert(is_garbage_node(node));
                if let Ok(rest) = entries_from(s, end, strict) {
                    let nodes = seq![node] + rest;
                    assert forall|i: int| 0 <= i < nodes.len() implies is_garbage_node(
                        #[trigger] nodes[i],
                    ) by {
                        if i > 0 {
                            assert(nodes[i] == rest[i - 1]);
                        }
                    }
                }
            }
        }
    }
}

/// Contact nodes of garbage give garbage contacts.
pub proof fn lemma_garbage_nodes_give_garbage(nodes: Seq<Tree>, i: int)
    requires
        only_garbage_nodes(nodes),
    ensures
        contacts_from(nodes, i) matches Ok(contacts) && only_garbage(contacts),
    decreases nodes.len() - i,
{
    if 0 <= i < nodes.len() {
        assert(is_garbage_node(nodes[i]));
        lemma_garbage_nodes_give_garbage(nodes, i + 1);
        let rest = contacts_from(nodes, i + 1)->Ok_0;
        let contact = ContactView::Garbage(nodes[i].children[0].text);
        assert(crate::builder::contact_of(nodes[i]) == Some(Ok::<ContactView, Error>(contact)));
        let contacts = seq![contact] + rest;
        assert forall|k: int| 0 <= k < contacts.len() implies (#[trigger] contacts[k]) is Garbage by {
            if k > 0 {
                assert(contacts[k] == rest[k - 1]);
            }
        }
    }
}

/// What the grammar and the builder make of a text in which no address
/// starts holds garbage only.
pub proof fn candidate_is_garbage(s: Seq<char>)
    requires
        has_no_address(s),
    ensures
        candidate_of(s) matches Ok(list) && only_garbage(list.contacts()),
{
    reveal_with_fuel(crate::builder::address_list_of, 2);
    every_text_has_a_candidate(s);
    let tree = crate::grammar::address_list_of(s);
    match group_of(s) {
        Ok(group) => {
            let start = crate::grammar::group_start(s);
            let (name, end) = group_name_at(s, start)->Ok_0;
            let colon = scan(s, end, Class::Space);
            lemma_entries_are_garbage(s, colon + 1, true);
            let members = entries_from(s, colon + 1, true)->Ok_0;
            lemma_garbage_nodes_give_garbage(members, 0);
            assert(tree.children[0] == group);
            assert(group.children[0] == name);
            assert(name.children.len() == 1);
        },
        Err(_) => {
            crate::permissive::lemma_entries_walkable(s, 0, false);
            lemma_entries_are_garbage(s, 0, false);
            let nodes = entries_from(s, 0, false)->Ok_0;
            lemma_garbage_nodes_give_garbage(nodes, 0);
            assert(tree.children[0] == crate::grammar::contact_list_of(s));
        },
    }
}

/// The single contact of a text in which no address starts is garbage.
pub proof fn single_contact_is_garbage(text: Seq<char>)
    requires
        has_no_address(text),
    ensures
        single_contact(text) matches Ok(contact) ==> contact is Garbage,
{
    if !is_blank(text) {
        let s = trim(text);
        lemma_trim_has_no_address(text);
        let start = skip_filler(s, 0);
        lemma_skip_filler(s, 0);
        if start < s.len() {
            lemma_nothing_structured(s, start);
        }
    }
}

/// Entries in which no address starts add nothing to a list.
pub proof fn entries_without_address_add_nothing(
    contacts: Seq<ContactView>,
    entries: Seq<Seq<char>>,
    i: int,
)
    requires
        none_has_address(entries),
    ensures
        with_absent(contacts, entries, i) == Ok::<Seq<ContactView>, Error>(contacts),
    decreases entries.len() - i,
{
    if 0 <= i < entries.len() {
        single_contact_is_garbage(entries[i]);
        crate::permissive::a_contact_fails_only_as_empty(entries[i]);
        entries_without_address_add_nothing(contacts, entries, i + 1);
    }
}

/// No address starts in the pieces of an entry in which none starts.
pub proof fn lemma_pieces_have_no_address(s: Seq<char>, p: int)
    requires
        has_no_address(s),
        0 <= p <= s.len(),
    ensures
        none_has_address(pieces_from(s, p)),
    decreases s.len() - p,
{
    let close = scan(s, p, Class::Except('>'));
    lemma_scan(s, p, Class::Except('>'));
    let to = if close < s.len() {
        close
    } else {
        s.len() as int
    };
    lemma_part_has_no_address(s, p, to);
    lemma_push_has_no_address(span(s, p, to), '>');
    assert(none_has_address(piece(s, p, to)));
    if close < s.len() {
        lemma_pieces_have_no_address(s, close + 1);
        let all = piece(s, p, close) + pieces_from(s, close + 1);
        assert forall|i: int| 0 <= i < all.len() implies has_no_address(#[trigger] all[i]) by {
            if i < piece(s, p, close).len() {
                assert(all[i] == piece(s, p, close)[i]);
            } else {
                assert(all[i] == pieces_from(s, close + 1)[i - piece(s, p, close).len()]);
            }
        }
    }
}

/// Entries in which no address starts expand to such entries.
pub proof fn lemma_expanded_have_no_address(entries: Seq<Seq<char>>)
    requires
        none_has_address(entries),
    ensures
        none_has_address(expanded(entries)),
    decreases entries.len(),
{
    if entries.len() > 0 {
        let front = entries.drop_last();
        assert forall|i: int| 0 <= i < front.len() implies has_no_address(#[trigger] front[i]) by {
            assert(front[i] == entries[i]);
        }
        lemma_expanded_have_no_address(front);
        let last = entries.last();
        assert(has_no_address(last));
        lemma_pieces_have_no_address(last, 0);
        let tail = expanded_entry(last);
        assert(none_has_address(tail));
        let all = expanded(front) + tail;
        assert forall|i: int| 0 <= i < all.len() implies has_no_address(#[trigger] all[i]) by {
            if i < expanded(front).len() {
                assert(all[i] == expanded(front)[i]);
            } else {
                assert(all[i] == tail[i - expanded(front).len()]);
            }
        }
    }
}

/// No address starts in entries in a row with commas where none starts in
/// any of them.
pub proof fn lemma_strung_has_no_address(entries: Seq<Seq<char>>)
    requires
        none_has_address(entries),
    ensures
        has_no_address(strung(entries)),
        strung(entries).len() == 0 || strung(entries).last() == ',',
        has_no_address(without_commas(strung(entries))),
    decreases entries.len(),
{
    if entries.len() > 0 {
        let front = entries.drop_last();
        assert forall|i: int| 0 <= i < front.len() implies has_no_address(#[trigger] front[i]) by {
            assert(front[i] == entries[i]);
        }
        lemma_strung_has_no_address(front);
        let last = entries.last();
        assert(has_no_address(last));
        lemma_row_has_no_address(strung(front), last);
        lemma_push_has_no_address(strung(front) + last, ',');
        assert(strung(entries) =~= (strung(front) + last).push(','));
    } else {
        assert forall|p: int| (#[trigger] address_end(Seq::<char>::empty(), p)) is None by {}
    }
    let s = strung(entries);
    lemma_drop_commas_bounds(s, s.len() as int);
    lemma_part_has_no_address(s, 0, drop_commas(s, s.len() as int));
}

proof fn lemma_drop_commas_bounds(s: Seq<char>, hi: int)
    requires
        0 <= hi <= s.len(),
    ensures
        0 <= drop_commas(s, hi) <= hi,
    decreases hi,
{
    if 0 < hi && s[hi - 1] == ',' {
        lemma_drop_commas_bounds(s, hi - 1);
    }
}

/// A list of garbage stays as it is when it is augmented with what entries
/// expand to in which no address starts.
pub proof fn augmenting_garbage_gives_garbage(list: AddressListView, entries: Seq<Seq<char>>)
    requires
        none_has_address(entries),
    ensures
        augmented(list, expanded(entries)) == Ok::<AddressListView, Error>(list),
{
    lemma_expanded_have_no_address(entries);
    entries_without_address_add_nothing(list.contacts(), expanded(entries), 0);
}

} // verus!
