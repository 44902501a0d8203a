//! How a principal is reached: by phone, by email, or by both.

use vstd::prelude::*;
use crate::email::{is_email, Email, EmailView};
use crate::error::Error;
use crate::text::{chars_of, contains_char};
use crate::value::{FieldMap, Value, ValueView};

verus! {

/// A phone number, new or verified.
#[derive(Debug, PartialEq, Eq, Hash)]
pub enum Phone {
    /// A number that nobody verified yet.
    New(String),
    /// A number whose owner proved to answer it.
    Verified(String),
}

/// What a [`Phone`] holds.
pub enum PhoneView {
    New(Seq<char>),
    Verified(Seq<char>),
}

impl PhoneView {
    /// The number.
    pub open spec fn number(self) -> Seq<char> {
        match self {
            PhoneView::New(s) => s,
            PhoneView::Verified(s) => s,
        }
    }
}

impl View for Phone {
    type V = PhoneView;

    open spec fn view(&self) -> PhoneView {
        match self {
            Phone::New(s) => PhoneView::New(s@),
            Phone::Verified(s) => PhoneView::Verified(s@),
        }
    }
}

impl Clone for Phone {
    fn clone(&self) -> (out: Phone)
        ensures
            out@ == self@,
    {
        match self {
            Phone::New(s) => Phone::New(s.clone()),
            Phone::Verified(s) => Phone::Verified(s.clone()),
        }
    }
}

impl Phone {
    /// The number with the given verification state.
    pub fn from_parts(number: String, verified: bool) -> (out: Phone)
        ensures
            out@ == if verified {
                PhoneView::Verified(number@)
            } else {
                PhoneView::New(number@)
            },
    {
        if verified {
            Phone::Verified(number)
        } else {
            Phone::New(number)
        }
    }

    /// The number.
    pub fn number(&self) -> (out: &str)
        ensures
            out@ == self@.number(),
    {
        match self {
            Phone::New(s) => s.as_str(),
            Phone::Verified(s) => s.as_str(),
        }
    }

    /// Whether the number was verified.
    pub fn is_verified(&self) -> (out: bool)
        ensures
            out == (self@ is Verified),
    {
        match self {
            Phone::New(_) => false,
            Phone::Verified(_) => true,
        }
    }

    /// Whether two numbers are the same, verification state included.
    pub fn same(&self, other: &Phone) -> (out: bool)
        ensures
            out == (self@ == other@),
    {
        match (self, other) {
            (Phone::New(a), Phone::New(b)) => *a == *b,
            (Phone::Verified(a), Phone::Verified(b)) => *a == *b,
            _ => false,
        }
    }
}

/// The contact of a principal.
#[derive(Debug, PartialEq, Eq, Hash)]
pub enum Contact {
    Phone(Phone),
    Email(Email),
    Both(Phone, Email),
}

/// What a [`Contact`] holds.
pub enum ContactView {
    Phone(PhoneView),
    Email(EmailView),
    Both(PhoneView, EmailView),
}

impl ContactView {
    /// The phone number of the contact, if it has one.
    pub open spec fn phone(self) -> Option<PhoneView> {
        match self {
            ContactView::Phone(p) => Some(p),
            ContactView::Email(_) => None,
            ContactView::Both(p, _) => Some(p),
        }
    }

    /// The email address of the contact, if it has one.
    pub open spec fn email(self) -> Option<EmailView> {
        match self {
            ContactView::Phone(_) => None,
            ContactView::Email(e) => Some(e),
            ContactView::Both(_, e) => Some(e),
        }
    }

    /// The fields that write the contact down: the number and the address
    /// under `phone` and `email`, their states under `phone_verified` and
    /// `email_verified`. What the contact lacks has no field.
    pub open spec fn fields(self) -> Map<Seq<char>, ValueView> {
        let with_phone = match self.phone() {
            Some(p) => Map::<Seq<char>, ValueView>::empty().insert(
                "phone"@,
                ValueView::String(p.number()),
            ).insert("phone_verified"@, ValueView::Bool(p is Verified)),
            None => Map::<Seq<char>, ValueView>::empty(),
        };
        match self.email() {
            Some(e) => with_phone.insert("email"@, ValueView::String(e.address())).insert(
                "email_verified"@,
                ValueView::Bool(e is Verified),
            ),
            None => with_phone,
        }
    }
}

impl ContactView {
    /// The names of the fields that write the contact down, in the order in
    /// which they are written: the phone number and its state, then the
    /// email address and its state.
    pub open spec fn field_names(self) -> Seq<Seq<char>> {
        let with_phone = match self.phone() {
            Some(_) => Seq::<Seq<char>>::empty().push("phone"@).push("phone_verified"@),
            None => Seq::<Seq<char>>::empty(),
        };
        match self.email() {
            Some(_) => with_phone.push("email"@).push("email_verified"@),
            None => with_phone,
        }
    }
}

/// The names of the four fields of a contact differ from one another.
pub proof fn lemma_field_names_differ()
    ensures
        "phone"@ != "phone_verified"@,
        "phone"@ != "email"@,
        "phone"@ != "email_verified"@,
        "phone_verified"@ != "email"@,
        "phone_verified"@ != "email_verified"@,
        "email"@ != "email_verified"@,
{
    reveal_strlit("phone");
    reveal_strlit("phone_verified");
    reveal_strlit("email");
    reveal_strlit("email_verified");
    assert("phone"@.len() == 5 && "phone"@[0] == 'p');
    assert("phone_verified"@.len() == 14 && "phone_verified"@[0] == 'p');
    assert("email"@.len() == 5 && "email"@[0] == 'e');
    assert("email_verified"@.len() == 14 && "email_verified"@[0] == 'e');
}

impl View for Contact {
    type V = ContactView;

    open spec fn view(&self) -> ContactView {
        match self {
            Contact::Phone(p) => ContactView::Phone(p@),
            Contact::Email(e) => ContactView::Email(e@),
            Contact::Both(p, e) => ContactView::Both(p@, e@),
        }
    }
}

impl Clone for Contact {
    fn clone(&self) -> (out: Contact)
        ensures
            out@ == self@,
    {
        match self {
            Contact::Phone(p) => Contact::Phone(p.clone()),
            Contact::Email(e) => Contact::Email(e.clone()),
            Contact::Both(p, e) => Contact::Both(p.clone(), e.clone()),
        }
    }
}

/// The contact that a phone number and an email address make, if there is
/// at least one of them.
pub open spec fn contact_of(phone: Option<PhoneView>, email: Option<EmailView>) -> Option<
    ContactView,
> {
    match (phone, email) {
        (Some(p), Some(e)) => Some(ContactView::Both(p, e)),
        (Some(p), None) => Some(ContactView::Phone(p)),
        (None, Some(e)) => Some(ContactView::Email(e)),
        (None, None) => None,
    }
}

/// Whether the fields say that what `name` holds was verified.
pub open spec fn flag_set(fields: Map<Seq<char>, ValueView>, name: Seq<char>) -> bool {
    fields.contains_key(name) && fields[name] == ValueView::Bool(true)
}

/// The phone number that the fields give: the text under `phone`, verified
/// where `phone_verified` is true.
pub open spec fn phone_of(fields: Map<Seq<char>, ValueView>) -> Option<PhoneView> {
    if fields.contains_key("phone"@) {
        match fields["phone"@] {
            ValueView::String(s) => Some(
                if flag_set(fields, "phone_verified"@) {
                    PhoneView::Verified(s)
                } else {
                    PhoneView::New(s)
                },
            ),
            _ => None,
        }
    } else {
        None
    }
}

/// The email address that the fields give: the text under `email`, which
/// must hold an `@` and a dot, verified where `email_verified` is true.
pub open spec fn email_of(fields: Map<Seq<char>, ValueView>) -> Result<EmailView, Error> {
    if fields.contains_key("email"@) {
        match fields["email"@] {
            ValueView::String(s) => if !is_email(s) {
                Err(Error::InvalidEmail)
            } else if flag_set(fields, "email_verified"@) {
                Ok(EmailView::Verified(s))
            } else {
                Ok(EmailView::New(s))
            },
            _ => Err(Error::ConversionError { field: Some("email"), status: 400, message: None }),
        }
    } else {
        Err(Error::ConversionError { field: Some("email"), status: 400, message: None })
    }
}

/// The contact that the fields give. A phone number that does not convert
/// counts as none; without a phone number the failure of the email address
/// is the failure of the contact.
pub open spec fn contact_of_fields(fields: Map<Seq<char>, ValueView>) -> Result<
    ContactView,
    Error,
> {
    match (phone_of(fields), email_of(fields)) {
        (Some(p), Ok(e)) => Ok(ContactView::Both(p, e)),
        (Some(p), Err(_)) => Ok(ContactView::Phone(p)),
        (None, Ok(e)) => Ok(ContactView::Email(e)),
        (None, Err(err)) => Err(err),
    }
}

/// Whether the fields say that what `name` holds was verified.
fn read_flag(fields: &FieldMap, name: &str) -> (out: bool)
    ensures
        out == flag_set(fields@, name@),
{
    match fields.get(name) {
        Some(Value::Bool(b)) => *b,
        _ => false,
    }
}

/// The phone number that the fields give.
fn read_phone(fields: &FieldMap) -> (out: Option<Phone>)
    ensures
        match out {
            Some(p) => phone_of(fields@) == Some(p@),
            None => phone_of(fields@) is None,
        },
{
    match fields.get("phone") {
        Some(Value::String(s)) => Some(
            Phone::from_parts(s.clone(), read_flag(fields, "phone_verified")),
        ),
        _ => None,
    }
}

/// The email address that the fields give.
fn read_email(fields: &FieldMap) -> (out: Result<Email, Error>)
    ensures
        match out {
            Ok(e) => email_of(fields@) == Ok::<EmailView, Error>(e@),
            Err(err) => email_of(fields@) == Err::<EmailView, Error>(err),
        },
{
    match fields.get("email") {
        Some(Value::String(s)) => {
            let chars = chars_of(s.as_str());
            if contains_char(&chars, '@') && contains_char(&chars, '.') {
                Ok(Email::from_parts(s.clone(), read_flag(fields, "email_verified")))
            } else {
                Err(Error::InvalidEmail)
            }
        },
        _ => Err(Error::conversion_error(None).set_field("email")),
    }
}

impl Contact {
    /// The contact that a phone number and an email address make. Fails with
    /// a conversion failure where there is neither.
    pub fn from_parts(phone: Option<Phone>, email: Option<Email>) -> (out: Result<Contact, Error>)
        ensures
            match out {
                Ok(c) => contact_of(
                    match phone {
                        Some(p) => Some(p@),
                        None => None,
                    },
                    match email {
                        Some(e) => Some(e@),
                        None => None,
                    },
                ) == Some(c@),
                Err(err) => phone is None && email is None && err == (Error::ConversionError {
                    field: None,
                    status: 400,
                    message: Some("Neither phone nor email provided"),
                }),
            },
    {
        match (phone, email) {
            (Some(p), Some(e)) => Ok(Contact::Both(p, e)),
            (Some(p), None) => Ok(Contact::Phone(p)),
            (None, Some(e)) => Ok(Contact::Email(e)),
            (None, None) => Err(
                Error::conversion_error(Some("Neither phone nor email provided")),
            ),
        }
    }

    /// The phone number of the contact, if it has one.
    pub fn phone(&self) -> (out: Option<&Phone>)
        ensures
            match out {
                Some(p) => self@.phone() == Some(p@),
                None => self@.phone() is None,
            },
    {
        match self {
            Contact::Phone(p) => Some(p),
            Contact::Email(_) => None,
            Contact::Both(p, _) => Some(p),
        }
    }

    /// The email address of the contact, if it has one.
    pub fn email(&self) -> (out: Option<&Email>)
        ensures
            match out {
                Some(e) => self@.email() == Some(e@),
                None => self@.email() is None,
            },
    {
        match self {
            Contact::Phone(_) => None,
            Contact::Email(e) => Some(e),
            Contact::Both(_, e) => Some(e),
        }
    }

    /// Whether two contacts are the same, verification states included.
    pub fn same(&self, other: &Contact) -> (out: bool)
        ensures
            out == (self@ == other@),
    {
        match (self, other) {
            (Contact::Phone(a), Contact::Phone(b)) => a.same(b),
            (Contact::Email(a), Contact::Email(b)) => a.same(b),
            (Contact::Both(a, c), Contact::Both(b, d)) => a.same(b) && c.same(d),
            _ => false,
        }
    }

    /// The fields that write the contact down, in the order in which they
    /// are written.
    pub fn to_fields(&self) -> (out: FieldMap)
        ensures
            out@ == self@.fields(),
            out.name_order() == self@.field_names(),
    {
        proof {
            lemma_field_names_differ();
        }
        let mut out = FieldMap::new();
        match self.phone() {
            Some(p) => {
                out.insert("phone", Value::String(p.number().to_owned()));
                out.insert("phone_verified", Value::Bool(p.is_verified()));
            },
            None => {},
        }
        match self.email() {
            Some(e) => {
                out.insert("email", Value::String(e.address().to_owned()));
                out.insert("email_verified", Value::Bool(e.is_verified()));
            },
            None => {},
        }
        out
    }

    /// The contact that the fields give.
    pub fn from_fields(fields: &FieldMap) -> (out: Result<Contact, Error>)
        ensures
            match out {
                Ok(c) => contact_of_fields(fields@) == Ok::<ContactView, Error>(c@),
                Err(err) => contact_of_fields(fields@) == Err::<ContactView, Error>(err),
            },
    {
        let phone = read_phone(fields);
        let email = read_email(fields);
        match (phone, email) {
            (Some(p), Ok(e)) => Ok(Contact::Both(p, e)),
            (Some(p), Err(_)) => Ok(Contact::Phone(p)),
            (None, Ok(e)) => Ok(Contact::Email(e)),
            (None, Err(err)) => Err(err),
        }
    }
}

} // verus!
