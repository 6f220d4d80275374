use katas::validation::{Email, Password, UserAccount, Username, ValidationError};

#[test]
fn test_username_validation() {
    assert!(Username::new("abc").is_ok());
    assert_eq!(Username::new("ab"), Err(ValidationError::UsernameTooShort));
    assert_eq!(Username::new("a".repeat(21).as_str()), Err(ValidationError::UsernameTooLong));
    assert_eq!(Username::new("user@name"), Err(ValidationError::UsernameInvalidCharacters));
}

#[test]
fn test_email_validation() {
    assert!(Email::new("user@example.com").is_ok());
    assert_eq!(Email::new("invalid"), Err(ValidationError::EmailInvalidFormat));
}

#[test]
fn test_password_validation() {
    assert!(Password::new("password123").is_ok());
    assert_eq!(Password::new("short"), Err(ValidationError::PasswordTooWeak));
    assert_eq!(Password::new("nodigits"), Err(ValidationError::PasswordTooWeak));
}

#[test]
fn username_is_trimmed_before_it_is_checked() {
    assert_eq!(Username::new("  abc \n").unwrap().as_str(), "abc");
    assert_eq!(Username::new("  ab  "), Err(ValidationError::UsernameTooShort));
    assert_eq!(Username::new(&format!(" {} ", "a".repeat(20))).unwrap().as_str(), "a".repeat(20));
}

#[test]
fn username_length_counts_bytes() {
    // two letters of two bytes each are long enough, seven of three are too long
    assert_eq!(Username::new("\u{e9}\u{e9}").unwrap().as_str(), "\u{e9}\u{e9}");
    assert_eq!(Username::new(&"\u{4e2d}".repeat(7)), Err(ValidationError::UsernameTooLong));
    assert!(Username::new(&"\u{4e2d}".repeat(6)).is_ok());
}

#[test]
fn username_characters() {
    assert!(Username::new("user_name_1").is_ok());
    assert_eq!(Username::new("user name"), Err(ValidationError::UsernameInvalidCharacters));
    assert_eq!(Username::new("a-b"), Err(ValidationError::UsernameInvalidCharacters));
    // length is checked before the characters
    assert_eq!(Username::new("@"), Err(ValidationError::UsernameTooShort));
}

#[test]
fn email_is_trimmed_and_lowered() {
    let email = Email::new("  User@Example.COM ").unwrap();
    assert_eq!(email.as_str(), "user@example.com");
    assert_eq!(email.domain(), "example.com");
}

#[test]
fn email_forms_that_are_refused() {
    for bad in ["", "a@b", "a.b", "@b.c", "a.b@", "a@b@c.d", "a@@b.c", "@", "."] {
        assert_eq!(Email::new(bad), Err(ValidationError::EmailInvalidFormat));
    }
    assert!(Email::new("a.b@c").is_ok());
    assert_eq!(Email::new("a.b@c").unwrap().domain(), "c");
}

#[test]
fn password_is_kept_as_it_is() {
    let password = Password::new(" pass word 1 ").unwrap();
    assert!(password.verify(" pass word 1 "));
    assert!(!password.verify("pass word 1"));
    assert_eq!(Password::new("12345678"), Err(ValidationError::PasswordTooWeak));
    assert_eq!(Password::new("a234567"), Err(ValidationError::PasswordTooWeak));
    assert!(Password::new("a2345678").is_ok());
}

#[test]
fn account_gives_back_what_it_was_given() {
    let account = UserAccount::new(
        Username::new("some_user").unwrap(),
        Email::new("Some@User.org").unwrap(),
        Password::new("secret123").unwrap(),
    );
    assert_eq!(account.username().as_str(), "some_user");
    assert_eq!(account.email().as_str(), "some@user.org");
    assert!(account.verify_password("secret123"));
    assert!(!account.verify_password("Secret123"));
    assert_eq!(account.username().clone(), Username::new("some_user").unwrap());
}

#[test]
fn validation_messages() {
    assert_eq!(
        ValidationError::UsernameTooShort.message(),
        "Username must be at least 3 characters"
    );
    assert_eq!(
        ValidationError::UsernameTooLong.message(),
        "Username must be at most 20 characters"
    );
    assert_eq!(
        ValidationError::UsernameInvalidCharacters.message(),
        "Username contains invalid characters"
    );
    assert_eq!(ValidationError::EmailInvalidFormat.message(), "Invalid email format");
    assert_eq!(
        ValidationError::PasswordTooWeak.message(),
        "Password must be at least 8 characters with numbers and letters"
    );
}
