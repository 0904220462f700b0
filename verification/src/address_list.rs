//! The contact model: contacts, groups and address lists, with the two ways
//! of comparing them.
//!
//! Shallow equality (`==`) compares contacts by their email address alone.
//! Deep equality ([`DeepEq`]) compares every field.

use crate::text::{is_blank, lemma_trim_blank, trim, trimmed};
use vstd::prelude::*;

verus! {

/// What an [`EmailContact`] holds.
pub struct EmailView {
    pub email: Seq<char>,
    pub name: Option<Seq<char>>,
    pub comment: Option<Seq<char>>,
}

/// What a [`Contact`] holds.
pub enum ContactView {
    Email(EmailView),
    Garbage(Seq<char>),
}

/// What an [`AddressList`] holds.
pub enum AddressListView {
    Contacts(Seq<ContactView>),
    Group { name: Seq<char>, contacts: Seq<ContactView> },
}

impl EmailView {
    /// The contact with nothing but an email address.
    pub open spec fn fresh(email: Seq<char>) -> EmailView {
        EmailView { email, name: None, comment: None }
    }

    /// Setting the name trims it first; a blank name changes nothing.
    pub open spec fn with_name(self, name: Seq<char>) -> EmailView {
        if is_blank(name) {
            self
        } else {
            EmailView { name: Some(trim(name)), ..self }
        }
    }

    /// Setting the email takes it as it is; an empty one changes nothing.
    pub open spec fn with_email(self, email: Seq<char>) -> EmailView {
        if email.len() == 0 {
            self
        } else {
            EmailView { email, ..self }
        }
    }

    /// Setting the comment takes it as it is; an empty one changes nothing.
    pub open spec fn with_comment(self, comment: Seq<char>) -> EmailView {
        if comment.len() == 0 {
            self
        } else {
            EmailView { comment: Some(comment), ..self }
        }
    }
}

impl ContactView {
    pub open spec fn email(self) -> Option<Seq<char>> {
        match self {
            ContactView::Email(e) => Some(e.email),
            ContactView::Garbage(_) => None,
        }
    }

    pub open spec fn name(self) -> Option<Seq<char>> {
        match self {
            ContactView::Email(e) => e.name,
            ContactView::Garbage(_) => None,
        }
    }

    /// The comment of an email contact, or the text of a garbage contact.
    pub open spec fn comment(self) -> Option<Seq<char>> {
        match self {
            ContactView::Email(e) => e.comment,
            ContactView::Garbage(g) => Some(g),
        }
    }

    /// A garbage contact has no name to set.
    pub open spec fn with_name(self, name: Seq<char>) -> ContactView {
        match self {
            ContactView::Email(e) => ContactView::Email(e.with_name(name)),
            ContactView::Garbage(_) => self,
        }
    }

    /// A garbage contact has no email to set, and does not become an email
    /// contact.
    pub open spec fn with_email(self, email: Seq<char>) -> ContactView {
        match self {
            ContactView::Email(e) => ContactView::Email(e.with_email(email)),
            ContactView::Garbage(_) => self,
        }
    }

    /// The comment of a garbage contact is its text, which is replaced.
    pub open spec fn with_comment(self, comment: Seq<char>) -> ContactView {
        match self {
            ContactView::Email(e) => ContactView::Email(e.with_comment(comment)),
            ContactView::Garbage(_) => ContactView::Garbage(comment),
        }
    }

    /// Shallow equality: the email addresses match. Garbage has none, so two
    /// garbage contacts are shallow-equal whatever their text.
    pub open spec fn same_email(self, other: ContactView) -> bool {
        self.email() == other.email()
    }

    /// Deep equality: email, name and comment all match.
    pub open spec fn same_fields(self, other: ContactView) -> bool {
        &&& self.email() == other.email()
        &&& self.name() == other.name()
        &&& self.comment() == other.comment()
    }
}

/// Whether two contact sequences have the same length and are shallow-equal
/// position by position.
pub open spec fn same_emails(a: Seq<ContactView>, b: Seq<ContactView>) -> bool {
    &&& a.len() == b.len()
    &&& forall|i: int| 0 <= i < a.len() ==> (#[trigger] a[i]).same_email(b[i])
}

/// Whether two contact sequences have the same length and are deep-equal
/// position by position.
pub open spec fn same_contacts(a: Seq<ContactView>, b: Seq<ContactView>) -> bool {
    &&& a.len() == b.len()
    &&& forall|i: int| 0 <= i < a.len() ==> (#[trigger] a[i]).same_fields(b[i])
}

impl AddressListView {
    /// The contacts, whichever the variant.
    pub open spec fn contacts(self) -> Seq<ContactView> {
        match self {
            AddressListView::Contacts(c) => c,
            AddressListView::Group { contacts, .. } => contacts,
        }
    }

    pub open spec fn group_name(self) -> Option<Seq<char>> {
        match self {
            AddressListView::Contacts(_) => None,
            AddressListView::Group { name, .. } => Some(name),
        }
    }

    /// The same list with other contacts.
    pub open spec fn with_contacts(self, contacts: Seq<ContactView>) -> AddressListView {
        match self {
            AddressListView::Contacts(_) => AddressListView::Contacts(contacts),
            AddressListView::Group { name, .. } => AddressListView::Group { name, contacts },
        }
    }

    /// Shallow equality: the same shape, the same group name if any, and
    /// contacts that are shallow-equal position by position.
    pub open spec fn same_emails(self, other: AddressListView) -> bool {
        &&& self.group_name() == other.group_name()
        &&& same_emails(self.contacts(), other.contacts())
    }

    /// Deep equality: the same shape, the same group name if any, and
    /// contacts that are deep-equal position by position.
    pub open spec fn same_fields(self, other: AddressListView) -> bool {
        &&& self.group_name() == other.group_name()
        &&& same_contacts(self.contacts(), other.contacts())
    }
}

/// The view of an optional string.
pub open spec fn optional_text(s: Option<String>) -> Option<Seq<char>> {
    match s {
        Some(s) => Some(s@),
        None => None,
    }
}

/// The view of an optional reference to a string.
pub open spec fn borrowed_text(s: Option<&String>) -> Option<Seq<char>> {
    match s {
        Some(s) => Some(s@),
        None => None,
    }
}

fn same_optional_text(a: Option<&String>, b: Option<&String>) -> (r: bool)
    ensures
        r == (borrowed_text(a) == borrowed_text(b)),
{
    match (a, b) {
        (Some(x), Some(y)) => *x == *y,
        (None, None) => true,
        _ => false,
    }
}

fn copy_optional_text(a: &Option<String>) -> (r: Option<String>)
    ensures
        optional_text(r) == optional_text(*a),
{
    match a {
        Some(x) => Some(x.clone()),
        None => None,
    }
}

/// Check if all fields are the same rather than just a subset ("deep
/// equals").
pub trait DeepEq<Rhs = Self> {
    /// What deep equality means for this type.
    spec fn deep_eq_spec(&self, other: &Rhs) -> bool;

    fn deep_eq(&self, other: &Rhs) -> (r: bool)
        ensures
            r == self.deep_eq_spec(other),
    ;

    fn deep_ne(&self, other: &Rhs) -> (r: bool)
        ensures
            r == !self.deep_eq_spec(other),
    {
        !self.deep_eq(other)
    }
}

/// Unified interface for all contact types.
pub trait Contactish: Sized {
    /// The contact that the value stands for.
    spec fn model(&self) -> ContactView;

    /// The contact that `new` makes of its argument.
    spec fn new_model(required: Seq<char>) -> ContactView;

    fn email(&self) -> (r: Option<&String>)
        ensures
            borrowed_text(r) == self.model().email(),
    ;

    fn name(&self) -> (r: Option<&String>)
        ensures
            borrowed_text(r) == self.model().name(),
    ;

    fn comment(&self) -> (r: Option<&String>)
        ensures
            borrowed_text(r) == self.model().comment(),
    ;

    fn new(required: &str) -> (r: Self)
        ensures
            r.model() == Self::new_model(required@),
    ;

    fn set_name(self, name: &str) -> (r: Self)
        ensures
            r.model() == self.model().with_name(name@),
    ;

    fn set_email(self, email: &str) -> (r: Self)
        ensures
            r.model() == self.model().with_email(email@),
    ;

    fn set_comment(self, comment: &str) -> (r: Self)
        ensures
            r.model() == self.model().with_comment(comment@),
    ;
}

/// For everything that has contacts.
pub trait Contactsish {
    /// The contacts that the value holds.
    spec fn held(&self) -> Seq<ContactView>;

    fn as_contacts(self) -> (r: Contacts)
        ensures
            r@ == self.held(),
    ;
}

/// A contact with at least an email address.
#[derive(Debug)]
pub struct EmailContact {
    email: String,
    name: Option<String>,
    comment: Option<String>,
}

impl View for EmailContact {
    type V = EmailView;

    closed spec fn view(&self) -> EmailView {
        EmailView {
            email: self.email@,
            name: optional_text(self.name),
            comment: optional_text(self.comment),
        }
    }
}

impl Clone for EmailContact {
    fn clone(&self) -> (r: Self)
        ensures
            r@ == self@,
    {
        EmailContact {
            email: self.email.clone(),
            name: copy_optional_text(&self.name),
            comment: copy_optional_text(&self.comment),
        }
    }
}

impl Default for EmailContact {
    fn default() -> (r: Self)
        ensures
            r@ == EmailView::fresh(Seq::empty()),
    {
        EmailContact { email: String::new(), name: None, comment: None }
    }
}

impl Contactish for EmailContact {
    open spec fn model(&self) -> ContactView {
        ContactView::Email(self@)
    }

    open spec fn new_model(required: Seq<char>) -> ContactView {
        ContactView::Email(EmailView::fresh(required))
    }

    fn email(&self) -> (r: Option<&String>) {
        Some(&self.email)
    }

    fn name(&self) -> (r: Option<&String>) {
        self.name.as_ref()
    }

    fn comment(&self) -> (r: Option<&String>) {
        self.comment.as_ref()
    }

    fn new(email: &str) -> (r: Self) {
        EmailContact { email: email.to_owned(), name: None, comment: None }
    }

    fn set_name(self, name: &str) -> (r: Self) {
        let mut contact = self;
        let short = trimmed(name);
        proof {
            lemma_trim_blank(name@);
        }
        if !short.as_str().is_empty() {
            contact.name = Some(short);
        }
        contact
    }

    fn set_email(self, email: &str) -> (r: Self) {
        let mut contact = self;
        if !email.is_empty() {
            contact.email = email.to_owned();
        }
        contact
    }

    fn set_comment(self, comment: &str) -> (r: Self) {
        let mut contact = self;
        if !comment.is_empty() {
            contact.comment = Some(comment.to_owned());
        }
        contact
    }
}

/// Check if the email field is the same.
impl PartialEq for EmailContact {
    fn eq(&self, other: &EmailContact) -> (r: bool) {
        self.email == other.email
    }
}

impl vstd::std_specs::cmp::PartialEqSpecImpl for EmailContact {
    open spec fn obeys_eq_spec() -> bool {
        true
    }

    open spec fn eq_spec(&self, other: &EmailContact) -> bool {
        self@.email == other@.email
    }
}

/// Check if all fields are the same (`==` only checks if the email is the
/// same).
impl DeepEq for EmailContact {
    open spec fn deep_eq_spec(&self, other: &EmailContact) -> bool {
        self.model().same_fields(other.model())
    }

    fn deep_eq(&self, other: &EmailContact) -> (r: bool) {
        self.email == other.email && same_optional_text(self.name.as_ref(), other.name.as_ref())
            && same_optional_text(self.comment.as_ref(), other.comment.as_ref())
    }
}

/// A string that could not be parsed into an [`EmailContact`] but is a contact
/// regardless.
#[derive(Debug)]
pub struct GarbageContact(String);

impl View for GarbageContact {
    type V = Seq<char>;

    closed spec fn view(&self) -> Seq<char> {
        self.0@
    }
}

impl Clone for GarbageContact {
    fn clone(&self) -> (r: Self)
        ensures
            r@ == self@,
    {
        GarbageContact(self.0.clone())
    }
}

impl Default for GarbageContact {
    fn default() -> (r: Self)
        ensures
            r@ == Seq::<char>::empty(),
    {
        GarbageContact(String::new())
    }
}

impl Contactish for GarbageContact {
    open spec fn model(&self) -> ContactView {
        ContactView::Garbage(self@)
    }

    open spec fn new_model(required: Seq<char>) -> ContactView {
        ContactView::Garbage(required)
    }

    /// Since we are garbage, we don't have an email address.
    fn email(&self) -> (r: Option<&String>) {
        None
    }

    /// Since we are garbage, we don't have a name.
    fn name(&self) -> (r: Option<&String>) {
        None
    }

    /// Returns the actual string we couldn't interpret as an
    /// [`EmailContact`].
    fn comment(&self) -> (r: Option<&String>) {
        assert(self.model().comment() == Some(self@));
        Some(&self.0)
    }

    fn new(garbage: &str) -> (r: Self) {
        GarbageContact(garbage.to_owned())
    }

    fn set_name(self, name: &str) -> (r: Self) {
        self
    }

    fn set_email(self, email: &str) -> (r: Self) {
        self
    }

    fn set_comment(self, garbage: &str) -> (r: Self) {
        GarbageContact(garbage.to_owned())
    }
}

impl From<String> for GarbageContact {
    fn from(string: String) -> (r: GarbageContact)
        ensures
            r@ == string@,
    {
        GarbageContact(string)
    }
}

impl vstd::std_specs::convert::FromSpecImpl<String> for GarbageContact {
    open spec fn obeys_from_spec() -> bool {
        true
    }

    closed spec fn from_spec(string: String) -> GarbageContact {
        GarbageContact(string)
    }
}

/// Either an [`EmailContact`] we could successfully parse or a
/// [`GarbageContact`] we didn't want to throw away.
#[derive(Debug)]
pub enum Contact {
    Email(EmailContact),
    Garbage(GarbageContact),
}

impl View for Contact {
    type V = ContactView;

    open spec fn view(&self) -> ContactView {
        match self {
            Contact::Email(e) => ContactView::Email(e@),
            Contact::Garbage(g) => ContactView::Garbage(g@),
        }
    }
}

impl Clone for Contact {
    fn clone(&self) -> (r: Self)
        ensures
            r@ == self@,
    {
        match self {
            Contact::Email(e) => Contact::Email(e.clone()),
            Contact::Garbage(g) => Contact::Garbage(g.clone()),
        }
    }
}

impl Contact {
    pub fn is_garbage(&self) -> (r: bool)
        ensures
            r == (self@ is Garbage),
    {
        match self {
            Contact::Garbage(_) => true,
            _ => false,
        }
    }
}

/// Handed down on the variants' contents, which implement the same trait.
///
/// The exception to the rule is `new`, which makes an email contact, since
/// garbage is merely a fallback. Setting the email of a garbage contact does
/// not turn it into an email contact: it is returned unchanged.
impl Contactish for Contact {
    open spec fn model(&self) -> ContactView {
        self@
    }

    open spec fn new_model(required: Seq<char>) -> ContactView {
        ContactView::Email(EmailView::fresh(required))
    }

    fn name(&self) -> (r: Option<&String>) {
        match self {
            Contact::Email(c) => {
                let r = c.name();
                assert(c.model() == self@);
                r
            },
            Contact::Garbage(_) => None,
        }
    }

    fn email(&self) -> (r: Option<&String>) {
        assert(self.model() == self@);
        match self {
            Contact::Email(c) => c.email(),
            Contact::Garbage(_) => None,
        }
    }

    fn comment(&self) -> (r: Option<&String>) {
        match self {
            Contact::Email(c) => {
                let r = c.comment();
                assert(c.model() == self@);
                r
            },
            Contact::Garbage(c) => c.comment(),
        }
    }

    fn new(email: &str) -> (r: Self) {
        Contact::Email(EmailContact::new(email))
    }

    fn set_name(self, name: &str) -> (r: Self) {
        match self {
            Contact::Email(c) => Contact::Email(c.set_name(name)),
            Contact::Garbage(g) => Contact::Garbage(g.set_name(name)),
        }
    }

    fn set_comment(self, comment: &str) -> (r: Self) {
        match self {
            Contact::Email(c) => Contact::Email(c.set_comment(comment)),
            Contact::Garbage(g) => Contact::Garbage(g.set_comment(comment)),
        }
    }

    fn set_email(self, email: &str) -> (r: Self) {
        match self {
            Contact::Email(c) => Contact::Email(c.set_email(email)),
            Contact::Garbage(g) => Contact::Garbage(g.set_email(email)),
        }
    }
}

impl PartialEq for Contact {
    fn eq(&self, other: &Contact) -> (r: bool) {
        same_optional_text(self.email(), other.email())
    }
}

impl vstd::std_specs::cmp::PartialEqSpecImpl for Contact {
    open spec fn obeys_eq_spec() -> bool {
        true
    }

    open spec fn eq_spec(&self, other: &Contact) -> bool {
        self@.same_email(other@)
    }
}

impl DeepEq for Contact {
    open spec fn deep_eq_spec(&self, other: &Contact) -> bool {
        self@.same_fields(other@)
    }

    fn deep_eq(&self, other: &Contact) -> (r: bool) {
        same_optional_text(self.email(), other.email()) && same_optional_text(
            self.name(),
            other.name(),
        ) && same_optional_text(self.comment(), other.comment())
    }
}

impl From<GarbageContact> for Contact {
    fn from(garbage: GarbageContact) -> (r: Contact) {
        Contact::Garbage(garbage)
    }
}

impl vstd::std_specs::convert::FromSpecImpl<GarbageContact> for Contact {
    open spec fn obeys_from_spec() -> bool {
        true
    }

    open spec fn from_spec(garbage: GarbageContact) -> Contact {
        Contact::Garbage(garbage)
    }
}

impl From<EmailContact> for Contact {
    fn from(contact: EmailContact) -> (r: Contact) {
        Contact::Email(contact)
    }
}

impl vstd::std_specs::convert::FromSpecImpl<EmailContact> for Contact {
    open spec fn obeys_from_spec() -> bool {
        true
    }

    open spec fn from_spec(contact: EmailContact) -> Contact {
        Contact::Email(contact)
    }
}

/// What a sequence of contacts holds.
pub open spec fn contacts_view(contacts: Seq<Contact>) -> Seq<ContactView> {
    contacts.map_values(|c: Contact| c@)
}

/// Whether the two vectors have the same length and are shallow-equal
/// position by position.
fn same_emails_in(a: &Vec<Contact>, b: &Vec<Contact>) -> (r: bool)
    ensures
        r == same_emails(contacts_view(a@), contacts_view(b@)),
{
    if a.len() != b.len() {
        return false;
    }
    let mut i: usize = 0;
    while i < a.len()
        invariant
            a@.len() == b@.len(),
            i <= a@.len(),
            forall|j: int| 0 <= j < i ==> (#[trigger] contacts_view(a@)[j]).same_email(
                contacts_view(b@)[j],
            ),
        decreases a@.len() - i,
    {
        if !(a[i] == b[i]) {
            assert(!contacts_view(a@)[i as int].same_email(contacts_view(b@)[i as int]));
            return false;
        }
        i += 1;
    }
    true
}

/// Whether the two vectors have the same length and are deep-equal position
/// by position.
fn same_contacts_in(a: &Vec<Contact>, b: &Vec<Contact>) -> (r: bool)
    ensures
        r == same_contacts(contacts_view(a@), contacts_view(b@)),
{
    if a.len() != b.len() {
        return false;
    }
    let mut i: usize = 0;
    while i < a.len()
        invariant
            a@.len() == b@.len(),
            i <= a@.len(),
            forall|j: int| 0 <= j < i ==> (#[trigger] contacts_view(a@)[j]).same_fields(
                contacts_view(b@)[j],
            ),
        decreases a@.len() - i,
    {
        if !a[i].deep_eq(&b[i]) {
            assert(!contacts_view(a@)[i as int].same_fields(contacts_view(b@)[i as int]));
            return false;
        }
        i += 1;
    }
    true
}

/// Container for [`Contact`]s.
#[derive(Debug)]
pub struct Contacts {
    pub contacts: Vec<Contact>,
}

impl View for Contacts {
    type V = Seq<ContactView>;

    open spec fn view(&self) -> Seq<ContactView> {
        contacts_view(self.contacts@)
    }
}

impl Clone for Contacts {
    fn clone(&self) -> (r: Self)
        ensures
            r@ == self@,
    {
        let mut contacts: Vec<Contact> = Vec::new();
        let mut i: usize = 0;
        while i < self.contacts.len()
            invariant
                i <= self.contacts@.len(),
                contacts@.len() == i,
                forall|j: int| 0 <= j < i ==> (#[trigger] contacts@[j])@ == self.contacts@[j]@,
            decreases self.contacts@.len() - i,
        {
            let contact = self.contacts[i].clone();
            contacts.push(contact);
            i += 1;
        }
        assert(contacts_view(contacts@) =~= contacts_view(self.contacts@));
        Contacts { contacts }
    }
}

impl Default for Contacts {
    fn default() -> (r: Self)
        ensures
            r@ == Seq::<ContactView>::empty(),
    {
        Contacts::new()
    }
}

impl Contacts {
    pub fn new() -> (r: Self)
        ensures
            r@ == Seq::<ContactView>::empty(),
    {
        let r = Contacts { contacts: Vec::new() };
        assert(r@ =~= Seq::<ContactView>::empty());
        r
    }

    pub fn len(&self) -> (r: usize)
        ensures
            r == self@.len(),
    {
        self.contacts.len()
    }
}

impl std::ops::Deref for Contacts {
    type Target = [Contact];

    fn deref(&self) -> (r: &[Contact])
        ensures
            r@ == self.contacts@,
    {
        self.contacts.as_slice()
    }
}

impl<'a> IntoIterator for &'a Contacts {
    type Item = &'a Contact;

    type IntoIter = std::slice::Iter<'a, Contact>;

    fn into_iter(self) -> (r: std::slice::Iter<'a, Contact>)
        ensures
            r == vstd::std_specs::vec::spec_into_iter_borrowed(&self.contacts),
    {
        (&self.contacts).into_iter()
    }
}

impl IntoIterator for Contacts {
    type Item = Contact;

    type IntoIter = std::vec::IntoIter<Contact>;

    fn into_iter(self) -> (r: std::vec::IntoIter<Contact>)
        ensures
            r == vstd::std_specs::vec::spec_into_iter(self.contacts),
    {
        self.contacts.into_iter()
    }
}

impl Contactsish for Vec<Contact> {
    open spec fn held(&self) -> Seq<ContactView> {
        contacts_view(self@)
    }

    fn as_contacts(self) -> (r: Contacts) {
        Contacts { contacts: self }
    }
}

impl Contactsish for Contacts {
    open spec fn held(&self) -> Seq<ContactView> {
        self@
    }

    fn as_contacts(self) -> (r: Contacts) {
        self
    }
}

impl From<Vec<Contact>> for Contacts {
    fn from(s: Vec<Contact>) -> (r: Contacts) {
        Contacts { contacts: s }
    }
}

impl vstd::std_specs::convert::FromSpecImpl<Vec<Contact>> for Contacts {
    open spec fn obeys_from_spec() -> bool {
        true
    }

    open spec fn from_spec(s: Vec<Contact>) -> Contacts {
        Contacts { contacts: s }
    }
}

/// A group with a name and [`Contacts`].
#[derive(Debug)]
pub struct Group {
    pub name: String,
    pub contacts: Contacts,
}

impl View for Group {
    type V = AddressListView;

    open spec fn view(&self) -> AddressListView {
        AddressListView::Group { name: self.name@, contacts: self.contacts@ }
    }
}

impl Clone for Group {
    fn clone(&self) -> (r: Self)
        ensures
            r@ == self@,
    {
        Group { name: self.name.clone(), contacts: self.contacts.clone() }
    }
}

impl Default for Group {
    fn default() -> (r: Self)
        ensures
            r@ == (AddressListView::Group { name: Seq::empty(), contacts: Seq::empty() }),
    {
        Group { name: String::new(), contacts: Contacts::new() }
    }
}

impl Group {
    /// The group of that name, with no contacts.
    pub fn new(name: &str) -> (r: Self)
        ensures
            r@ == (AddressListView::Group { name: name@, contacts: Seq::empty() }),
    {
        Group { name: name.to_owned(), contacts: Contacts::new() }
    }

    /// The group with these contacts in place of its own.
    pub fn set_contacts<T: Contactsish>(self, contacts: T) -> (r: Self)
        ensures
            r@ == (AddressListView::Group { name: self.name@, contacts: contacts.held() }),
    {
        let mut group = self;
        group.contacts = contacts.as_contacts();
        group
    }
}

impl PartialEq for Group {
    fn eq(&self, other: &Group) -> (r: bool) {
        self.name == other.name && same_emails_in(&self.contacts.contacts, &other.contacts.contacts)
    }
}

impl vstd::std_specs::cmp::PartialEqSpecImpl for Group {
    open spec fn obeys_eq_spec() -> bool {
        true
    }

    open spec fn eq_spec(&self, other: &Group) -> bool {
        self@.same_emails(other@)
    }
}

impl DeepEq for Group {
    open spec fn deep_eq_spec(&self, other: &Group) -> bool {
        self@.same_fields(other@)
    }

    fn deep_eq(&self, other: &Group) -> (r: bool) {
        self.name == other.name && same_contacts_in(
            &self.contacts.contacts,
            &other.contacts.contacts,
        )
    }
}

impl From<&str> for Group {
    fn from(string: &str) -> (r: Group)
        ensures
            r@ == (AddressListView::Group { name: string@, contacts: Seq::empty() }),
    {
        Group::new(string)
    }
}

impl vstd::std_specs::convert::FromSpecImpl<&str> for Group {
    open spec fn obeys_from_spec() -> bool {
        false
    }

    open spec fn from_spec(string: &str) -> Group {
        arbitrary()
    }
}

/// All forms which email headers like `To`, `From`, `Cc`, etc. can take.
#[derive(Debug)]
pub enum AddressList {
    Contacts(Contacts),
    Group(Group),
}

impl View for AddressList {
    type V = AddressListView;

    open spec fn view(&self) -> AddressListView {
        match self {
            AddressList::Contacts(c) => AddressListView::Contacts(c@),
            AddressList::Group(g) => g@,
        }
    }
}

impl Clone for AddressList {
    fn clone(&self) -> (r: Self)
        ensures
            r@ == self@,
    {
        match self {
            AddressList::Contacts(c) => AddressList::Contacts(c.clone()),
            AddressList::Group(g) => AddressList::Group(g.clone()),
        }
    }
}

impl AddressList {
    /// Check if this address list is a group.
    pub fn is_group(&self) -> (r: bool)
        ensures
            r == (self@ is Group),
    {
        match self {
            AddressList::Group(_) => true,
            _ => false,
        }
    }

    /// Get the group name if it is a group.
    pub fn group_name(&self) -> (r: Option<&String>)
        ensures
            borrowed_text(r) == self@.group_name(),
    {
        match self {
            AddressList::Group(g) => Some(&g.name),
            _ => None,
        }
    }

    /// Get the contacts regardless of our variant.
    pub fn contacts(&self) -> (r: &Contacts)
        ensures
            r@ == self@.contacts(),
    {
        match self {
            AddressList::Contacts(c) => c,
            AddressList::Group(g) => &g.contacts,
        }
    }
}

impl PartialEq for AddressList {
    fn eq(&self, other: &AddressList) -> (r: bool) {
        match self {
            AddressList::Group(g) => {
                match other {
                    AddressList::Group(o) => g == o,
                    AddressList::Contacts(_) => false,
                }
            },
            AddressList::Contacts(c) => {
                match other {
                    AddressList::Contacts(o) => same_emails_in(&c.contacts, &o.contacts),
                    AddressList::Group(_) => false,
                }
            },
        }
    }
}

impl vstd::std_specs::cmp::PartialEqSpecImpl for AddressList {
    open spec fn obeys_eq_spec() -> bool {
        true
    }

    open spec fn eq_spec(&self, other: &AddressList) -> bool {
        self@.same_emails(other@)
    }
}

impl DeepEq for AddressList {
    open spec fn deep_eq_spec(&self, other: &AddressList) -> bool {
        self@.same_fields(other@)
    }

    fn deep_eq(&self, other: &AddressList) -> (r: bool) {
        match self {
            AddressList::Group(g) => {
                match other {
                    AddressList::Group(o) => g.deep_eq(o),
                    AddressList::Contacts(_) => false,
                }
            },
            AddressList::Contacts(c) => {
                match other {
                    AddressList::Contacts(o) => same_contacts_in(&c.contacts, &o.contacts),
                    AddressList::Group(_) => false,
                }
            },
        }
    }
}

impl From<Vec<Contact>> for AddressList {
    fn from(s: Vec<Contact>) -> (r: AddressList) {
        AddressList::Contacts(Contacts { contacts: s })
    }
}

impl vstd::std_specs::convert::FromSpecImpl<Vec<Contact>> for AddressList {
    open spec fn obeys_from_spec() -> bool {
        true
    }

    open spec fn from_spec(s: Vec<Contact>) -> AddressList {
        AddressList::Contacts(Contacts { contacts: s })
    }
}

impl Contactsish for AddressList {
    open spec fn held(&self) -> Seq<ContactView> {
        self@.contacts()
    }

    fn as_contacts(self) -> (r: Contacts) {
        match self {
            AddressList::Contacts(c) => c,
            AddressList::Group(g) => g.contacts,
        }
    }
}

impl From<Contacts> for AddressList {
    fn from(contacts: Contacts) -> (r: AddressList) {
        AddressList::Contacts(contacts)
    }
}

impl vstd::std_specs::convert::FromSpecImpl<Contacts> for AddressList {
    open spec fn obeys_from_spec() -> bool {
        true
    }

    open spec fn from_spec(contacts: Contacts) -> AddressList {
        AddressList::Contacts(contacts)
    }
}

impl From<Group> for AddressList {
    fn from(group: Group) -> (r: AddressList) {
        AddressList::Group(group)
    }
}

impl vstd::std_specs::convert::FromSpecImpl<Group> for AddressList {
    open spec fn obeys_from_spec() -> bool {
        true
    }

    open spec fn from_spec(group: Group) -> AddressList {
        AddressList::Group(group)
    }
}

} // verus!
