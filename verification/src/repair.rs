//! The repair heuristics: a best-effort pass that recovers contacts which
//! the grammar lost to delimiters it did not expect.
//!
//! The pass compares the text that went in with what came out. Where text
//! went missing, it cuts the input into entries by other rules, parses each
//! entry on its own and adds the contacts that are not there yet. It never
//! adds garbage, and never a contact whose email is already present.

use crate::address_list::{
    contacts_view, AddressList, AddressListView, Contact, ContactView, Contacts, Group,
};
use crate::builder::list_is;
use crate::engine::{lemma_scan, run};
use crate::error::Error;
use crate::garbage::{
    augmenting_garbage_gives_garbage, candidate_is_garbage, has_no_address,
    lemma_occurrence_has_no_address, lemma_strung_has_no_address, none_has_address, only_garbage,
};
use crate::grammar::{scan, span, Class};
use crate::laws::{added_are_new, augmenting_adds_no_duplicate};
use crate::permissive::{adding_never_fails, repair_never_fails};
use crate::parser::{candidate_of, parse_candidate, parse_contact, single_contact};
use crate::pattern::{find_all, occurs_in, regex_matches, texts};
use crate::render::list_text;
use crate::text::{is_space, space, substring, to_chars};
use vstd::prelude::*;
use vstd::string::StringExecFns;

verus! {

/// Entries separated by commas: a quoted name with an address, where the
/// quotes may hold commas, or anything with an `@` between two commas.
pub open spec fn comma_pattern() -> Seq<char> {
    r#"[^",]*"[^"\\]*\\.[^"\\]+"[^,"]+@[^,"]+|[^",]*".*?"[^,"]*@[^,"]*|[^,"]+@[^,"]+"#@
}

/// Entries separated by semicolons, where quotes may hold semicolons.
pub open spec fn semicolon_pattern() -> Seq<char> {
    r#"[^;"]?".*?"[^;"]*|[^;"]*"#@
}

/// The entries that the comma pattern finds in a text.
pub open spec fn comma_entries(text: Seq<char>) -> Seq<Seq<char>> {
    match regex_matches(comma_pattern(), text) {
        Some(found) => found,
        None => Seq::empty(),
    }
}

/// The entries that the semicolon pattern finds in a text.
pub open spec fn semicolon_entries(text: Seq<char>) -> Seq<Seq<char>> {
    match regex_matches(semicolon_pattern(), text) {
        Some(found) => found,
        None => Seq::empty(),
    }
}

/// The characters that do not count when text is weighed: commas, quotes,
/// angle brackets and white space.
pub open spec fn is_dropped(c: char) -> bool {
    c == ',' || c == '"' || c == '\'' || c == '<' || c == '>' || is_space(c)
}

/// The number of bytes that a character takes in UTF-8.
pub open spec fn width(c: char) -> nat {
    let u = c as u32;
    if u < 0x80 {
        1
    } else if u < 0x800 {
        2
    } else if u < 0x10000 {
        3
    } else {
        4
    }
}

/// The weight of a text: the number of bytes of the characters that count.
pub open spec fn weight(s: Seq<char>) -> nat
    decreases s.len(),
{
    if s.len() == 0 {
        0
    } else if is_dropped(s.last()) {
        weight(s.drop_last())
    } else {
        weight(s.drop_last()) + width(s.last())
    }
}

/// What stands between two `>`, or between one and an end of the entry: a
/// piece with a `<` gets its `>` back, an empty piece is dropped, any other
/// is kept as it is.
pub open spec fn piece(s: Seq<char>, from: int, to: int) -> Seq<Seq<char>> {
    let text = span(s, from, to);
    if text.contains('<') {
        seq![text.push('>')]
    } else if text.len() == 0 {
        Seq::empty()
    } else {
        seq![text]
    }
}

/// The pieces of an entry from position `p` on.
pub open spec fn pieces_from(s: Seq<char>, p: int) -> Seq<Seq<char>>
    decreases s.len() - p,
{
    let close = scan(s, p, Class::Except('>'));
    if !(0 <= p <= close < s.len()) {
        piece(s, p, s.len() as int)
    } else {
        piece(s, p, close) + pieces_from(s, close + 1)
    }
}

/// An entry with a `>` is cut into pieces, any other is kept.
pub open spec fn expanded_entry(entry: Seq<char>) -> Seq<Seq<char>> {
    if entry.contains('>') {
        pieces_from(entry, 0)
    } else {
        seq![entry]
    }
}

/// The entries with those cut into pieces that hold addresses without a
/// delimiter between them.
pub open spec fn expanded(entries: Seq<Seq<char>>) -> Seq<Seq<char>>
    decreases entries.len(),
{
    if entries.len() == 0 {
        Seq::empty()
    } else {
        expanded(entries.drop_last()) + expanded_entry(entries.last())
    }
}

/// The entries in a row, a comma after each.
pub open spec fn strung(entries: Seq<Seq<char>>) -> Seq<char>
    decreases entries.len(),
{
    if entries.len() == 0 {
        Seq::empty()
    } else {
        strung(entries.drop_last()) + entries.last() + seq![',']
    }
}

/// The end of `s[..hi]` once the commas at its end are removed.
pub open spec fn drop_commas(s: Seq<char>, hi: int) -> int
    decreases hi,
{
    if 0 < hi <= s.len() && s[hi - 1] == ',' {
        drop_commas(s, hi - 1)
    } else {
        hi
    }
}

/// The text without the commas at its end.
pub open spec fn without_commas(s: Seq<char>) -> Seq<char> {
    s.subrange(0, drop_commas(s, s.len() as int))
}

/// Whether a contact that is shallow-equal to this one is among the
/// contacts.
pub open spec fn is_present(contacts: Seq<ContactView>, contact: ContactView) -> bool {
    exists|i: int| 0 <= i < contacts.len() && (#[trigger] contacts[i]).same_email(contact)
}

/// Weighs a text.
pub fn weigh(text: &str) -> (r: u128)
    ensures
        r == weight(text@),
{
    let chars = to_chars(text);
    let mut total: u128 = 0;
    let mut i: usize = 0;
    assert(chars@.take(0) =~= Seq::<char>::empty());
    while i < chars.len()
        invariant
            i <= chars@.len(),
            total == weight(chars@.take(i as int)),
            total <= 4 * i,
        decreases chars@.len() - i,
    {
        let c = chars[i];
        proof {
            let next = chars@.take(i + 1);
            assert(next.drop_last() =~= chars@.take(i as int));
            assert(next.last() == c);
        }
        let dropped = c == ',' || c == '"' || c == '\'' || c == '<' || c == '>' || space(c);
        if !dropped {
            let u: u32 = c as u32;
            if u < 0x80 {
                total += 1;
            } else if u < 0x800 {
                total += 2;
            } else if u < 0x10000 {
                total += 3;
            } else {
                total += 4;
            }
        }
        i += 1;
    }
    assert(chars@.take(i as int) =~= chars@);
    total
}

/// Where the scan for a character stops tells whether the text between two
/// positions holds it.
pub proof fn lemma_scan_contains(s: Seq<char>, from: int, to: int, c: char)
    requires
        0 <= from <= to <= s.len(),
    ensures
        span(s, from, to).contains(c) <==> scan(s, from, Class::Except(c)) < to,
{
    let stop = scan(s, from, Class::Except(c));
    lemma_scan(s, from, Class::Except(c));
    let text = span(s, from, to);
    if stop < to {
        assert(text[stop - from] == c);
    } else {
        assert forall|i: int| 0 <= i < text.len() implies text[i] != c by {
            assert(Class::Except(c).has(s[from + i]));
        }
    }
}

/// Whether the text between two positions holds the character.
fn holds_between(s: &[char], from: usize, to: usize, c: char) -> (r: bool)
    requires
        from <= to <= s@.len(),
    ensures
        r == span(s@, from as int, to as int).contains(c),
{
    proof {
        lemma_scan_contains(s@, from as int, to as int, c);
    }
    run(s, from, Class::Except(c)) < to
}

/// Whether the text holds the character.
pub fn holds(text: &str, c: char) -> (r: bool)
    ensures
        r == text@.contains(c),
{
    let chars = to_chars(text);
    assert(span(chars@, 0, chars@.len() as int) =~= chars@);
    holds_between(chars.as_slice(), 0, chars.len(), c)
}

/// The entries of a text that is separated by commas.
pub fn csv(text: &str) -> (r: Vec<String>)
    ensures
        texts(r@) == comma_entries(text@),
        forall|i: int| 0 <= i < r@.len() ==> occurs_in(#[trigger] r@[i]@, text@),
{
    let pattern = r#"[^",]*"[^"\\]*\\.[^"\\]+"[^,"]+@[^,"]+|[^",]*".*?"[^,"]*@[^,"]*|[^,"]+@[^,"]+"#;
    match find_all(pattern, text) {
        Some(found) => found,
        None => {
            let none: Vec<String> = Vec::new();
            assert(texts(none@) =~= Seq::<Seq<char>>::empty());
            none
        },
    }
}

/// The entries of a text that is separated by semicolons.
pub fn ssv(text: &str) -> (r: Vec<String>)
    ensures
        texts(r@) == semicolon_entries(text@),
        forall|i: int| 0 <= i < r@.len() ==> occurs_in(#[trigger] r@[i]@, text@),
{
    let pattern = r#"[^;"]?".*?"[^;"]*|[^;"]*"#;
    match find_all(pattern, text) {
        Some(found) => found,
        None => {
            let none: Vec<String> = Vec::new();
            assert(texts(none@) =~= Seq::<Seq<char>>::empty());
            none
        },
    }
}

proof fn lemma_texts_push(strings: Seq<String>, string: String)
    ensures
        texts(strings.push(string)) == texts(strings).push(string@),
{
    assert(texts(strings.push(string)) =~= texts(strings).push(string@));
}

/// Adds the piece between two positions of an entry.
fn push_piece(out: &mut Vec<String>, s: &[char], from: usize, to: usize)
    requires
        from <= to <= s@.len(),
    ensures
        texts(final(out)@) == texts(old(out)@) + piece(s@, from as int, to as int),
{
    let mut text = substring(s, from, to);
    if holds_between(s, from, to, '<') {
        text.push('>');
        proof {
            lemma_texts_push(out@, text);
            assert(texts(out@).push(text@) =~= texts(out@) + seq![text@]);
        }
        out.push(text);
    } else if from < to {
        proof {
            lemma_texts_push(out@, text);
            assert(texts(out@).push(text@) =~= texts(out@) + seq![text@]);
        }
        out.push(text);
    } else {
        assert(texts(out@) + Seq::<Seq<char>>::empty() =~= texts(out@));
    }
}

/// Adds what an entry expands to.
fn push_expanded(out: &mut Vec<String>, entry: &str)
    ensures
        texts(final(out)@) == texts(old(out)@) + expanded_entry(entry@),
{
    let chars = to_chars(entry);
    let s = chars.as_slice();
    assert(span(s@, 0, s@.len() as int) =~= s@);
    if !holds_between(s, 0, s.len(), '>') {
        let text = entry.to_owned();
        proof {
            lemma_texts_push(out@, text);
            assert(texts(out@).push(text@) =~= texts(out@) + seq![entry@]);
        }
        out.push(text);
        return ;
    }
    let mut p: usize = 0;
    assert(texts(out@) + pieces_from(s@, 0) == texts(old(out)@) + pieces_from(s@, 0));
    loop
        invariant
            p <= s@.len(),
            expanded_entry(entry@) == pieces_from(s@, 0),
            texts(old(out)@) + pieces_from(s@, 0) == texts(out@) + pieces_from(s@, p as int),
        decreases s@.len() - p,
    {
        let close = run(s, p, Class::Except('>'));
        let ghost before = texts(out@);
        if close >= s.len() {
            push_piece(out, s, p, s.len());
            return ;
        }
        push_piece(out, s, p, close);
        proof {
            assert(before + (piece(s@, p as int, close as int) + pieces_from(s@, close + 1))
                =~= before + piece(s@, p as int, close as int) + pieces_from(s@, close + 1));
        }
        p = close + 1;
    }
}

/// Breaks apart the entries that hold addresses without a delimiter between
/// them, and puts the pieces in their place.
pub fn expand_undelimited(entries: Vec<String>) -> (r: Vec<String>)
    ensures
        texts(r@) == expanded(texts(entries@)),
{
    let mut out: Vec<String> = Vec::new();
    let mut i: usize = 0;
    let ghost all = texts(entries@);
    assert(all.take(0) =~= Seq::<Seq<char>>::empty());
    assert(texts(out@) =~= Seq::<Seq<char>>::empty());
    while i < entries.len()
        invariant
            i <= entries@.len(),
            all == texts(entries@),
            texts(out@) == expanded(all.take(i as int)),
        decreases entries@.len() - i,
    {
        proof {
            let next = all.take(i + 1);
            assert(next.drop_last() =~= all.take(i as int));
            assert(next.last() == entries@[i as int]@);
        }
        push_expanded(&mut out, entries[i].as_str());
        i += 1;
    }
    assert(all.take(i as int) =~= all);
    out
}

/// The entries in a row, a comma after each.
pub fn string_entries(entries: &Vec<String>) -> (r: String)
    ensures
        r@ == strung(texts(entries@)),
{
    let mut out = String::new();
    let mut i: usize = 0;
    let ghost all = texts(entries@);
    assert(all.take(0) =~= Seq::<Seq<char>>::empty());
    while i < entries.len()
        invariant
            i <= entries@.len(),
            all == texts(entries@),
            out@ == strung(all.take(i as int)),
        decreases entries@.len() - i,
    {
        proof {
            let next = all.take(i + 1);
            assert(next.drop_last() =~= all.take(i as int));
            assert(next.last() == entries@[i as int]@);
        }
        out.append(entries[i].as_str());
        out.push(',');
        assert(out@ =~= strung(all.take(i as int)) + entries@[i as int]@ + seq![',']);
        i += 1;
    }
    assert(all.take(i as int) =~= all);
    out
}

/// The text without the commas at its end.
pub fn strip_commas(text: &str) -> (r: String)
    ensures
        r@ == without_commas(text@),
{
    let chars = to_chars(text);
    let mut end: usize = chars.len();
    while end > 0 && chars[end - 1] == ','
        invariant
            end <= chars@.len(),
            drop_commas(chars@, chars@.len() as int) == drop_commas(chars@, end as int),
        decreases end,
    {
        end -= 1;
    }
    substring(chars.as_slice(), 0, end)
}

/// The contacts with those of the entries from the `i`-th on that are not
/// among them yet. Each entry is parsed as a single contact. Garbage is not
/// added, nor a contact that is shallow-equal to one that is there already,
/// be it from the start or added before. An entry that holds no contact is
/// passed over. The first structural or syntax error ends the walk.
pub open spec fn with_absent(contacts: Seq<ContactView>, entries: Seq<Seq<char>>, i: int) -> Result<
    Seq<ContactView>,
    Error,
>
    decreases entries.len() - i,
{
    if !(0 <= i < entries.len()) {
        Ok(contacts)
    } else {
        match single_contact(entries[i]) {
            Ok(contact) => if contact is Email && !is_present(contacts, contact) {
                with_absent(contacts.push(contact), entries, i + 1)
            } else {
                with_absent(contacts, entries, i + 1)
            },
            Err(Error::Empty) => with_absent(contacts, entries, i + 1),
            Err(error) => Err(error),
        }
    }
}

/// The list with the contacts of the entries that it lacks, after its own.
pub open spec fn augmented(list: AddressListView, entries: Seq<Seq<char>>) -> Result<
    AddressListView,
    Error,
> {
    match with_absent(list.contacts(), entries, 0) {
        Ok(contacts) => Ok(list.with_contacts(contacts)),
        Err(error) => Err(error),
    }
}

/// How much of the input is missing from a list: the weight of the input
/// less the weight of the list as text.
pub open spec fn gap(input: Seq<char>, list: AddressListView) -> int {
    weight(input) - weight(list_text(list))
}

/// Whether the other reading of the input is to be preferred: it has more
/// contacts than the candidate and than there are entries between commas,
/// and less of the input is missing from it.
pub open spec fn is_better(
    input: Seq<char>,
    candidate: AddressListView,
    other: AddressListView,
) -> bool {
    &&& other.contacts().len() > candidate.contacts().len()
    &&& other.contacts().len() > comma_entries(input).len()
    &&& gap(input, other) < gap(input, candidate)
}

/// The input read as a list separated by semicolons: its entries between
/// semicolons, a comma after each.
pub open spec fn rewritten(input: Seq<char>) -> Seq<char> {
    strung(semicolon_entries(input))
}

/// The other reading of the input, where there is one to prefer. Only a
/// flat list of contacts with a semicolon in the input has another reading:
/// the input rewritten with commas for its semicolons and parsed again. Where
/// that reading is better, the contacts of its own entries that it lacks are
/// added to it.
pub open spec fn alternate(input: Seq<char>, candidate: AddressListView) -> Result<
    Option<AddressListView>,
    Error,
> {
    if candidate is Contacts && input.contains(';') {
        match candidate_of(without_commas(rewritten(input))) {
            Err(error) => Err(error),
            Ok(other) => if is_better(input, candidate, other) {
                match augmented(other, expanded(comma_entries(rewritten(input)))) {
                    Ok(list) => Ok(Some(list)),
                    Err(error) => Err(error),
                }
            } else {
                Ok(None)
            },
        }
    } else {
        Ok(None)
    }
}

/// The candidate after repair. A candidate that weighs no less than the
/// input is kept: nothing appears lost. Else the other reading of the input
/// is taken where it is better. Else the candidate is augmented with the
/// contacts of the expanded entries of the input, where there are more of
/// them than it has contacts.
pub open spec fn repaired(input: Seq<char>, candidate: AddressListView) -> Result<
    AddressListView,
    Error,
> {
    if weight(input) <= weight(list_text(candidate)) {
        Ok(candidate)
    } else {
        match alternate(input, candidate) {
            Err(error) => Err(error),
            Ok(Some(list)) => Ok(list),
            Ok(None) => if expanded(comma_entries(input)).len() > candidate.contacts().len() {
                augmented(candidate, expanded(comma_entries(input)))
            } else {
                Ok(candidate)
            },
        }
    }
}

/// Whether a contact that is shallow-equal to this one is in the vector.
fn present(contacts: &Vec<Contact>, contact: &Contact) -> (r: bool)
    ensures
        r == is_present(contacts_view(contacts@), contact@),
{
    let mut i: usize = 0;
    while i < contacts.len()
        invariant
            i <= contacts@.len(),
            forall|j: int| 0 <= j < i ==> !(#[trigger] contacts_view(contacts@)[j]).same_email(contact@),
        decreases contacts@.len() - i,
    {
        if contacts[i] == *contact {
            assert(contacts_view(contacts@)[i as int].same_email(contact@));
            return true;
        }
        i += 1;
    }
    false
}

/// Parses each entry as a single contact and appends those that are email
/// contacts and not in the list yet, to the contacts of the group where the
/// list is one.
pub fn add_absent_contacts(entries: &Vec<String>, list: AddressList) -> (r: Result<
    AddressList,
    Error,
>)
    ensures
        list_is(r, augmented(list@, texts(entries@))),
        r matches Ok(more) && {
            &&& more@.group_name() == list@.group_name()
            &&& list@.contacts().len() <= more@.contacts().len()
            &&& more@.contacts().take(list@.contacts().len() as int) == list@.contacts()
            &&& added_are_new(more@.contacts(), list@.contacts().len() as int)
        },
{
    proof {
        adding_never_fails(list@.contacts(), texts(entries@), 0);
        augmenting_adds_no_duplicate(list@, texts(entries@));
    }
    let (name, mut contacts) = match list {
        AddressList::Contacts(c) => (None, c.contacts),
        AddressList::Group(g) => (Some(g.name), g.contacts.contacts),
    };
    let ghost all = texts(entries@);
    let mut i: usize = 0;
    while i < entries.len()
        invariant
            i <= entries@.len(),
            all == texts(entries@),
            with_absent(list@.contacts(), all, 0) == with_absent(
                contacts_view(contacts@),
                all,
                i as int,
            ),
        decreases entries@.len() - i,
    {
        assert(all[i as int] == entries@[i as int]@);
        match parse_contact(entries[i].as_str()) {
            Ok(contact) => {
                if !contact.is_garbage() && !present(&contacts, &contact) {
                    proof {
                        assert(contacts_view(contacts@.push(contact)) =~= contacts_view(
                            contacts@,
                        ).push(contact@));
                    }
                    contacts.push(contact);
                }
            },
            Err(Error::Empty) => {},
            Err(error) => {
                return Err(error);
            },
        }
        i += 1;
    }
    match name {
        Some(name) => Ok(AddressList::Group(Group { name, contacts: Contacts { contacts } })),
        None => Ok(AddressList::Contacts(Contacts { contacts })),
    }
}

/// No address starts in the entries that were found in a text in which
/// none starts.
proof fn lemma_found_have_no_address(found: Seq<String>, text: Seq<char>)
    requires
        has_no_address(text),
        forall|i: int| 0 <= i < found.len() ==> occurs_in(#[trigger] found[i]@, text),
    ensures
        none_has_address(texts(found)),
{
    assert forall|i: int| 0 <= i < texts(found).len() implies has_no_address(
        #[trigger] texts(found)[i],
    ) by {
        lemma_occurrence_has_no_address(found[i]@, text);
    }
}

/// Repairs a candidate that was parsed from the input.
///
/// Repair never fails. Where no address starts in the input and the
/// candidate holds nothing but garbage, so does the result.
pub fn repair(input: &str, candidate: AddressList) -> (r: Result<AddressList, Error>)
    ensures
        list_is(r, repaired(input@, candidate@)),
        r is Ok,
        has_no_address(input@) && only_garbage(candidate@.contacts()) ==> (r matches Ok(list)
            && only_garbage(list@.contacts())),
{
    proof {
        repair_never_fails(input@, candidate@);
    }
    let input_weight = weigh(input);
    let output_weight = weigh(candidate.render().as_str());
    if input_weight <= output_weight {
        return Ok(candidate);
    }
    let entries = csv(input);
    if !candidate.is_group() && holds(input, ';') {
        let parts = ssv(input);
        let rewrite = string_entries(&parts);
        proof {
            if has_no_address(input@) {
                lemma_found_have_no_address(parts@, input@);
                lemma_strung_has_no_address(texts(parts@));
                candidate_is_garbage(without_commas(rewrite@));
            }
        }
        match parse_candidate(strip_commas(rewrite.as_str()).as_str()) {
            Err(error) => {
                return Err(error);
            },
            Ok(other) => {
                if other.contacts().len() > candidate.contacts().len() && other.contacts().len()
                    > entries.len() && weigh(other.render().as_str()) > output_weight {
                    let found = csv(rewrite.as_str());
                    proof {
                        if has_no_address(input@) {
                            lemma_found_have_no_address(found@, rewrite@);
                            augmenting_garbage_gives_garbage(other@, texts(found@));
                        }
                    }
                    let own = expand_undelimited(found);
                    return add_absent_contacts(&own, other);
                }
            },
        }
    }
    proof {
        if has_no_address(input@) && only_garbage(candidate@.contacts()) {
            lemma_found_have_no_address(entries@, input@);
            augmenting_garbage_gives_garbage(candidate@, texts(entries@));
        }
    }
    let expanded = expand_undelimited(entries);
    if expanded.len() > candidate.contacts().len() {
        add_absent_contacts(&expanded, candidate)
    } else {
        Ok(candidate)
    }
}

} // verus!
