use authz_core::contact::{Contact, Phone};
use authz_core::email::Email;
use authz_core::error::Error;
use authz_core::value::{FieldMap, Value};

#[test]
fn contact_fields_are_written_in_order() {
    let phone = Phone::New(String::from("+1234567890"));
    let email = Email::new("user@example.com").unwrap();

    let fields = Contact::Phone(phone.clone()).to_fields();
    assert_eq!(fields.names(), vec!["phone", "phone_verified"]);
    assert_eq!(fields.get("phone"), Some(&Value::String("+1234567890".to_string())));
    assert_eq!(fields.get("phone_verified"), Some(&Value::Bool(false)));
    assert_eq!(fields.get("email"), None);

    let fields = Contact::Email(email.clone()).to_fields();
    assert_eq!(fields.names(), vec!["email", "email_verified"]);
    assert_eq!(fields.get("email"), Some(&Value::String("user@example.com".to_string())));
    assert_eq!(fields.get("email_verified"), Some(&Value::Bool(false)));

    let fields = Contact::Both(phone.clone(), email.clone()).to_fields();
    assert_eq!(fields.names(), vec!["phone", "phone_verified", "email", "email_verified"]);
    assert_eq!(fields.get("phone"), Some(&Value::String("+1234567890".to_string())));
    assert_eq!(fields.get("email"), Some(&Value::String("user@example.com".to_string())));

    let verified = Contact::Both(Phone::Verified("1".to_string()), Email::Verified("a@b.c".to_string()));
    let fields = verified.to_fields();
    assert_eq!(fields.names(), vec!["phone", "phone_verified", "email", "email_verified"]);
    assert_eq!(fields.get("phone_verified"), Some(&Value::Bool(true)));
    assert_eq!(fields.get("email_verified"), Some(&Value::Bool(true)));
}

#[test]
fn contact_is_read_from_fields() {
    let mut fields = FieldMap::new();
    fields.insert("phone", Value::String("+1234567890".to_string()));
    fields.insert("email", Value::Null);
    assert!(matches!(Contact::from_fields(&fields).unwrap(), Contact::Phone(_)));

    let mut fields = FieldMap::new();
    fields.insert("phone", Value::Null);
    fields.insert("email", Value::String("user@example.com".to_string()));
    assert!(matches!(Contact::from_fields(&fields).unwrap(), Contact::Email(_)));

    let mut fields = FieldMap::new();
    fields.insert("phone", Value::String("+1234567890".to_string()));
    fields.insert("email", Value::String("user@example.com".to_string()));
    assert!(matches!(Contact::from_fields(&fields).unwrap(), Contact::Both(_, _)));
}

#[test]
fn contact_from_parts_needs_one_part() {
    let phone = Phone::from_parts("+49".to_string(), true);
    let email = Email::new("a@b.c").unwrap();
    assert_eq!(
        Contact::from_parts(Some(phone.clone()), Some(email.clone())).unwrap(),
        Contact::Both(phone.clone(), email.clone())
    );
    assert_eq!(Contact::from_parts(Some(phone.clone()), None).unwrap(), Contact::Phone(phone.clone()));
    assert_eq!(Contact::from_parts(None, Some(email.clone())).unwrap(), Contact::Email(email.clone()));
    assert_eq!(
        Contact::from_parts(None, None).unwrap_err(),
        Error::ConversionError { field: None, status: 400, message: Some("Neither phone nor email provided") }
    );
}

#[test]
fn contact_fields_round_trip() {
    let phone = Phone::Verified("+49 30 1".to_string());
    let email = Email::Verified("a@b.c".to_string());
    for contact in [
        Contact::Phone(phone.clone()),
        Contact::Email(email.clone()),
        Contact::Both(phone.clone(), email.clone()),
        Contact::Both(Phone::New("1".to_string()), Email::New("x@y.z".to_string())),
    ] {
        let fields = contact.to_fields();
        assert_eq!(Contact::from_fields(&fields).unwrap(), contact);
    }
}

#[test]
fn contact_fields_failures() {
    // Neither: the failure is that of the email address.
    let empty = FieldMap::new();
    assert_eq!(
        Contact::from_fields(&empty).unwrap_err(),
        Error::ConversionError { field: Some("email"), status: 400, message: None }
    );
    // An address without `@`, and no phone.
    let mut bad = FieldMap::new();
    bad.insert("email", Value::String("nothing".to_string()));
    assert_eq!(Contact::from_fields(&bad).unwrap_err(), Error::InvalidEmail);
    // The same with a phone: the phone alone counts.
    bad.insert("phone", Value::String("+1".to_string()));
    assert_eq!(Contact::from_fields(&bad).unwrap(), Contact::Phone(Phone::New("+1".to_string())));
    // A phone that is no text counts as none.
    let mut odd = FieldMap::new();
    odd.insert("phone", Value::Number(1));
    odd.insert("email", Value::String("a@b.c".to_string()));
    odd.insert("email_verified", Value::Bool(true));
    assert_eq!(Contact::from_fields(&odd).unwrap(), Contact::Email(Email::Verified("a@b.c".to_string())));
}

#[test]
fn contact_accessors_and_equality() {
    let phone = Phone::New("+1".to_string());
    let email = Email::New("a@b.c".to_string());
    let both = Contact::Both(phone.clone(), email.clone());
    assert_eq!(both.phone(), Some(&phone));
    assert_eq!(both.email(), Some(&email));
    assert_eq!(Contact::Phone(phone.clone()).email(), None);
    assert_eq!(Contact::Email(email.clone()).phone(), None);
    assert!(both.same(&both.clone()));
    assert!(!both.same(&Contact::Phone(phone.clone())));
    assert!(!Contact::Phone(phone.clone()).same(&Contact::Phone(Phone::Verified("+1".to_string()))));
    assert_eq!(phone.number(), "+1");
    assert!(!phone.is_verified());
    assert!(phone.same(&Phone::New("+1".to_string())));
}
