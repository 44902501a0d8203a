use authz_core::email::Email;
use authz_core::error::Error;

#[test]
fn test_email_new_valid() {
    let email = "test@example.com";
    let result = Email::new(email);
    assert!(result.is_ok());
    assert_eq!(result.unwrap(), Email::New(email.to_string()));
}

#[test]
fn test_email_new_invalid() {
    let email = "invalid-email";
    let result = Email::new(email);
    assert!(result.is_err());
    assert_eq!(result.unwrap_err(), Error::InvalidEmail);
}

#[test]
fn email_needs_at_sign_and_dot() {
    assert_eq!(Email::new("a@b").unwrap_err(), Error::InvalidEmail);
    assert_eq!(Email::new("a.b").unwrap_err(), Error::InvalidEmail);
    assert_eq!(Email::new("").unwrap_err(), Error::InvalidEmail);
    assert_eq!(Email::new("@.").unwrap(), Email::New("@.".to_string()));
    assert_eq!(Email::new("é@ü.de").unwrap(), Email::New("é@ü.de".to_string()));
}

#[test]
fn email_parts_and_equality() {
    let new = Email::from_parts("x@y.z".to_string(), false);
    let verified = Email::from_parts("x@y.z".to_string(), true);
    assert_eq!(new, Email::New("x@y.z".to_string()));
    assert_eq!(verified, Email::Verified("x@y.z".to_string()));
    assert_eq!(new.address(), "x@y.z");
    assert!(!new.is_verified());
    assert!(verified.is_verified());
    assert!(new.same(&new.clone()));
    assert!(!new.same(&verified));
    assert!(!new.same(&Email::New("x@y.zz".to_string())));
    // A record is taken as it is: nothing checks its address.
    assert_eq!(Email::from_parts("nothing".to_string(), true), Email::Verified("nothing".to_string()));
}
