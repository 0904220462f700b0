//! Contacts, groups and address lists written out as header text.
//!
//! Garbage has no place in a header and is written as nothing.

use crate::address_list::{
    contacts_view, AddressList, AddressListView, Contact, ContactView, Contactish, Contacts,
    EmailContact, EmailView, Group,
};
use crate::text::{substring, to_chars};
use vstd::prelude::*;
use vstd::string::StringExecFns;

verus! {

/// A backslash is written as two, a double quote with a backslash before
/// it, any other character as it is.
pub open spec fn escaped_char(c: char) -> Seq<char> {
    if c == '\\' {
        seq!['\\', '\\']
    } else if c == '"' {
        seq!['\\', '"']
    } else {
        seq![c]
    }
}

/// The text with each of its characters escaped.
pub open spec fn escaped(s: Seq<char>) -> Seq<char>
    decreases s.len(),
{
    if s.len() == 0 {
        Seq::empty()
    } else {
        escaped(s.drop_last()) + escaped_char(s.last())
    }
}

/// An email contact: the name in double quotes, if there is one, then the
/// comment in parentheses, if there is a name and a comment, then the email
/// in angle brackets. Name and email are escaped.
pub open spec fn email_text(contact: EmailView) -> Seq<char> {
    let name = match contact.name {
        Some(name) => seq!['"'] + escaped(name) + seq!['"', ' '] + match contact.comment {
            Some(comment) => seq!['('] + comment + seq![')', ' '],
            None => Seq::empty(),
        },
        None => Seq::empty(),
    };
    name + seq!['<'] + escaped(contact.email) + seq!['>']
}

/// A contact: garbage is written as nothing.
pub open spec fn contact_text(contact: ContactView) -> Seq<char> {
    match contact {
        ContactView::Email(email) => email_text(email),
        ContactView::Garbage(_) => Seq::empty(),
    }
}

/// The contacts, each followed by a comma and a space but the last.
pub open spec fn listed(contacts: Seq<ContactView>) -> Seq<char>
    decreases contacts.len(),
{
    if contacts.len() == 0 {
        Seq::empty()
    } else if contacts.len() == 1 {
        contact_text(contacts[0])
    } else {
        listed(contacts.drop_last()) + seq![',', ' '] + contact_text(contacts.last())
    }
}

/// Spaces and commas at the ends of a list are dropped.
pub open spec fn is_padding(c: char) -> bool {
    c == ' ' || c == ','
}

pub open spec fn skip_padding(s: Seq<char>, p: int) -> int
    decreases s.len() - p,
{
    if 0 <= p < s.len() && is_padding(s[p]) {
        skip_padding(s, p + 1)
    } else {
        p
    }
}

pub open spec fn drop_padding(s: Seq<char>, lo: int, hi: int) -> int
    decreases hi - lo,
{
    if lo < hi <= s.len() && is_padding(s[hi - 1]) {
        drop_padding(s, lo, hi - 1)
    } else {
        hi
    }
}

/// The text without the spaces and commas at its two ends.
pub open spec fn unpadded(s: Seq<char>) -> Seq<char> {
    let from = skip_padding(s, 0);
    s.subrange(from, drop_padding(s, from, s.len() as int))
}

/// The contacts as the value of a header.
pub open spec fn contacts_text(contacts: Seq<ContactView>) -> Seq<char> {
    unpadded(listed(contacts))
}

/// An address list as the value of a header: the contacts, or the escaped
/// name of the group in double quotes, a colon, the contacts and a
/// semicolon.
pub open spec fn list_text(list: AddressListView) -> Seq<char> {
    match list {
        AddressListView::Contacts(contacts) => contacts_text(contacts),
        AddressListView::Group { name, contacts } => seq!['"'] + escaped(name) + seq![
            '"',
            ':',
            ' ',
        ] + contacts_text(contacts) + seq![';'],
    }
}

/// A contact in short, for logs: the name in double quotes, the comment in
/// parentheses or the garbage in double quotes, and the email in angle
/// brackets, each as far as the contact has it. Nothing is escaped.
pub open spec fn description(contact: ContactView) -> Seq<char> {
    let name = match contact.name() {
        Some(name) => seq!['"'] + name + seq!['"', ' '],
        None => Seq::empty(),
    };
    let comment = match contact.comment() {
        Some(comment) => if contact is Garbage {
            "Garbage: \""@ + comment + seq!['"']
        } else {
            seq!['('] + comment + seq![')', ' ']
        },
        None => Seq::empty(),
    };
    let email = match contact.email() {
        Some(email) => seq!['<'] + email + seq!['>'],
        None => Seq::empty(),
    };
    "Contact("@ + name + comment + email + seq![')']
}

fn push_escaped(out: &mut String, text: &str)
    ensures
        final(out)@ == old(out)@ + escaped(text@),
{
    let chars = to_chars(text);
    let mut i: usize = 0;
    assert(chars@.take(0) =~= Seq::<char>::empty());
    assert(out@ + escaped(chars@.take(0)) =~= out@);
    while i < chars.len()
        invariant
            i <= chars@.len(),
            out@ == old(out)@ + escaped(chars@.take(i as int)),
        decreases chars@.len() - i,
    {
        let c = chars[i];
        proof {
            let next = chars@.take(i + 1);
            assert(next.drop_last() =~= chars@.take(i as int));
            assert(next.last() == c);
            assert(old(out)@ + (escaped(chars@.take(i as int)) + escaped_char(c)) =~= old(out)@
                + escaped(chars@.take(i as int)) + escaped_char(c));
        }
        if c == '\\' {
            out.push('\\');
            out.push('\\');
            assert(out@ =~= old(out)@ + escaped(chars@.take(i as int)) + escaped_char(c));
        } else if c == '"' {
            out.push('\\');
            out.push('"');
            assert(out@ =~= old(out)@ + escaped(chars@.take(i as int)) + escaped_char(c));
        } else {
            out.push(c);
            assert(out@ =~= old(out)@ + escaped(chars@.take(i as int)) + escaped_char(c));
        }
        i += 1;
    }
    assert(chars@.take(i as int) =~= chars@);
}

impl EmailContact {
    /// The contact as it stands in a header.
    pub fn render(&self) -> (r: String)
        ensures
            r@ == email_text(self@),
    {
        let mut out = String::new();
        proof {
            assert(self.model() == ContactView::Email(self@));
        }
        match self.name() {
            Some(name) => {
                out.push('"');
                push_escaped(&mut out, name.as_str());
                out.push('"');
                out.push(' ');
                match self.comment() {
                    Some(comment) => {
                        out.push('(');
                        out.append(comment.as_str());
                        out.push(')');
                        out.push(' ');
                        assert(out@ =~= seq!['"'] + escaped(name@) + seq!['"', ' '] + (seq!['(']
                            + comment@ + seq![')', ' ']));
                    },
                    None => {
                        assert(out@ =~= seq!['"'] + escaped(name@) + seq!['"', ' ']
                            + Seq::<char>::empty());
                    },
                }
            },
            None => {
                assert(out@ =~= Seq::<char>::empty());
            },
        }
        let ghost front = out@;
        out.push('<');
        match self.email() {
            Some(email) => {
                push_escaped(&mut out, email.as_str());
            },
            None => {},
        }
        out.push('>');
        assert(out@ =~= front + seq!['<'] + escaped(self@.email) + seq!['>']);
        out
    }
}

impl Contact {
    /// The contact in short, for logs.
    pub fn describe(&self) -> (r: String)
        ensures
            r@ == description(self@),
    {
        let mut out = String::new();
        out.append("Contact(");
        proof {
            assert(self.model() == self@);
        }
        let ghost start = out@;
        match self.name() {
            Some(name) => {
                out.push('"');
                out.append(name.as_str());
                out.push('"');
                out.push(' ');
                assert(out@ =~= start + (seq!['"'] + name@ + seq!['"', ' ']));
            },
            None => {
                assert(out@ =~= start + Seq::<char>::empty());
            },
        }
        let ghost named = out@;
        match self.comment() {
            Some(comment) => {
                if self.is_garbage() {
                    out.append("Garbage: \"");
                    out.append(comment.as_str());
                    out.push('"');
                    assert(out@ =~= named + ("Garbage: \""@ + comment@ + seq!['"']));
                } else {
                    out.push('(');
                    out.append(comment.as_str());
                    out.push(')');
                    out.push(' ');
                    assert(out@ =~= named + (seq!['('] + comment@ + seq![')', ' ']));
                }
            },
            None => {
                assert(out@ =~= named + Seq::<char>::empty());
            },
        }
        let ghost commented = out@;
        match self.email() {
            Some(email) => {
                out.push('<');
                out.append(email.as_str());
                out.push('>');
                assert(out@ =~= commented + (seq!['<'] + email@ + seq!['>']));
            },
            None => {
                assert(out@ =~= commented + Seq::<char>::empty());
            },
        }
        out.push(')');
        out
    }

    /// The contact as it stands in a header: garbage is written as nothing.
    pub fn render(&self) -> (r: String)
        ensures
            r@ == contact_text(self@),
    {
        match self {
            Contact::Email(email) => email.render(),
            Contact::Garbage(_) => String::new(),
        }
    }
}

fn skip_padding_from(s: &[char], p: usize) -> (q: usize)
    requires
        p <= s@.len(),
    ensures
        q == skip_padding(s@, p as int),
        p <= q <= s@.len(),
{
    let mut q: usize = p;
    while q < s.len() && (s[q] == ' ' || s[q] == ',')
        invariant
            p <= q <= s@.len(),
            skip_padding(s@, p as int) == skip_padding(s@, q as int),
        decreases s@.len() - q,
    {
        q += 1;
    }
    q
}

fn drop_padding_to(s: &[char], lo: usize, hi: usize) -> (q: usize)
    requires
        lo <= hi <= s@.len(),
    ensures
        q == drop_padding(s@, lo as int, hi as int),
        lo <= q <= hi,
{
    let mut q: usize = hi;
    while lo < q && (s[q - 1] == ' ' || s[q - 1] == ',')
        invariant
            lo <= q <= hi <= s@.len(),
            drop_padding(s@, lo as int, hi as int) == drop_padding(s@, lo as int, q as int),
        decreases q - lo,
    {
        q -= 1;
    }
    q
}

/// The contacts of a vector as the value of a header.
pub fn render_contacts(contacts: &Vec<Contact>) -> (r: String)
    ensures
        r@ == contacts_text(contacts_view(contacts@)),
{
    let mut out = String::new();
    let mut i: usize = 0;
    let ghost all = contacts_view(contacts@);
    assert(all.take(0) =~= Seq::<ContactView>::empty());
    while i < contacts.len()
        invariant
            i <= contacts@.len(),
            all == contacts_view(contacts@),
            out@ == listed(all.take(i as int)),
        decreases contacts@.len() - i,
    {
        let one = contacts[i].render();
        proof {
            let next = all.take(i + 1);
            assert(next.drop_last() =~= all.take(i as int));
            assert(next.last() == contacts@[i as int]@);
            assert(next.len() == i + 1);
            if i == 0 {
                assert(next[0] == contacts@[i as int]@);
                assert(Seq::<char>::empty() + one@ =~= one@);
            }
        }
        if i > 0 {
            out.push(',');
            out.push(' ');
        }
        let ghost before = out@;
        out.append(one.as_str());
        proof {
            if i > 0 {
                assert(before =~= listed(all.take(i as int)) + seq![',', ' ']);
            }
        }
        i += 1;
    }
    assert(all.take(i as int) =~= all);
    let chars = to_chars(out.as_str());
    let from = skip_padding_from(chars.as_slice(), 0);
    let to = drop_padding_to(chars.as_slice(), from, chars.len());
    substring(chars.as_slice(), from, to)
}

impl Contacts {
    /// The contacts as the value of a header.
    pub fn render(&self) -> (r: String)
        ensures
            r@ == contacts_text(self@),
    {
        render_contacts(&self.contacts)
    }
}

impl Group {
    /// The group as the value of a header.
    pub fn render(&self) -> (r: String)
        ensures
            r@ == list_text(self@),
    {
        let mut out = String::new();
        out.push('"');
        push_escaped(&mut out, self.name.as_str());
        out.push('"');
        out.push(':');
        out.push(' ');
        let contacts = self.contacts.render();
        out.append(contacts.as_str());
        out.push(';');
        assert(out@ =~= seq!['"'] + escaped(self.name@) + seq!['"', ':', ' '] + contacts_text(
            self.contacts@,
        ) + seq![';']);
        out
    }
}

impl AddressList {
    /// The address list as the value of a header.
    pub fn render(&self) -> (r: String)
        ensures
            r@ == list_text(self@),
    {
        match self {
            AddressList::Contacts(contacts) => contacts.render(),
            AddressList::Group(group) => group.render(),
        }
    }
}

} // verus!
