//! User names, e-mail addresses and passwords that hold only what passed
//! their checks.

use vstd::prelude::*;

use crate::text::{
    alphabetic, alphanumeric, byte_len, byte_length, count_of, lemma_skip_whitespace,
    lemma_trim_end, lowercase, numeric, skip_whitespace, to_chars, trim, trim_end, trimmed,
};

verus! {

/// Why a value was refused.
#[derive(Debug, Clone, Copy, PartialEq, Eq, Structural)]
pub enum ValidationError {
    UsernameTooShort,
    UsernameTooLong,
    UsernameInvalidCharacters,
    EmailInvalidFormat,
    PasswordTooWeak,
}

/// The sentence that reports `error`.
pub open spec fn validation_message(error: ValidationError) -> Seq<char> {
    match error {
        ValidationError::UsernameTooShort => "Username must be at least 3 characters"@,
        ValidationError::UsernameTooLong => "Username must be at most 20 characters"@,
        ValidationError::UsernameInvalidCharacters => "Username contains invalid characters"@,
        ValidationError::EmailInvalidFormat => "Invalid email format"@,
        ValidationError::PasswordTooWeak => "Password must be at least 8 characters with numbers and letters"@,
    }
}

impl ValidationError {
    /// The error as a sentence for a reader.
    pub fn message(&self) -> (text: &'static str)
        ensures
            text@ == validation_message(*self),
    {
        match self {
            ValidationError::UsernameTooShort => "Username must be at least 3 characters",
            ValidationError::UsernameTooLong => "Username must be at most 20 characters",
            ValidationError::UsernameInvalidCharacters => "Username contains invalid characters",
            ValidationError::EmailInvalidFormat => "Invalid email format",
            ValidationError::PasswordTooWeak => "Password must be at least 8 characters with numbers and letters",
        }
    }
}

/// The least length of a user name, in bytes.
pub const USERNAME_MIN_LENGTH: usize = 3;

/// The greatest length of a user name, in bytes.
pub const USERNAME_MAX_LENGTH: usize = 20;

/// The least length of a password, in bytes.
pub const PASSWORD_MIN_LENGTH: usize = 8;

/// Whether `c` may stand in a user name: a letter, a number character or an
/// underscore.
pub open spec fn name_char(c: char) -> bool {
    alphanumeric(c) || c == '_'
}

/// Whether every character of `s` may stand in a user name.
pub open spec fn all_name_chars(s: Seq<char>) -> bool {
    forall|i: int| 0 <= i < s.len() ==> name_char(#[trigger] s[i])
}

/// What becomes of the text `given` as a user name: it is trimmed, and then
/// its length in bytes and its characters are checked, in this order.
pub open spec fn username_of(given: Seq<char>) -> Result<Seq<char>, ValidationError> {
    let name = trimmed(given);
    if byte_len(name) < USERNAME_MIN_LENGTH {
        Err(ValidationError::UsernameTooShort)
    } else if byte_len(name) > USERNAME_MAX_LENGTH {
        Err(ValidationError::UsernameTooLong)
    } else if !all_name_chars(name) {
        Err(ValidationError::UsernameInvalidCharacters)
    } else {
        Ok(name)
    }
}

/// Whether `address` has the form of an e-mail address: one `@`, neither
/// in the first nor in the last place, and a point anywhere.
pub open spec fn is_address(address: Seq<char>) -> bool {
    &&& address.contains('.')
    &&& count_of(address, '@') == 1
    &&& address.first() != '@'
    &&& address.last() != '@'
}

/// What becomes of the text `given` as an e-mail address: it is trimmed
/// and put in lower case, and then its form is checked.
pub open spec fn email_of(given: Seq<char>) -> Result<Seq<char>, ValidationError> {
    let address = lowercase(trimmed(given));
    if is_address(address) {
        Ok(address)
    } else {
        Err(ValidationError::EmailInvalidFormat)
    }
}

/// The position of the first `c` in `s` at or after `pos`, or the length of
/// `s` where there is none.
pub open spec fn position_of(s: Seq<char>, c: char, pos: int) -> int
    decreases s.len() - pos,
{
    if 0 <= pos < s.len() && s[pos] != c {
        position_of(s, c, pos + 1)
    } else {
        pos
    }
}

/// What stands between the first `@` of `address` and the next one, or the
/// end; nothing where there is no `@`.
pub open spec fn domain_of(address: Seq<char>) -> Seq<char> {
    let at = position_of(address, '@', 0);
    if at < address.len() {
        address.subrange(at + 1, position_of(address, '@', at + 1))
    } else {
        Seq::empty()
    }
}

/// Whether `s` is strong enough for a password: at least eight bytes long,
/// with a letter and a number character.
pub open spec fn is_strong(s: Seq<char>) -> bool {
    &&& byte_len(s) >= PASSWORD_MIN_LENGTH
    &&& exists|i: int| 0 <= i < s.len() && alphabetic(#[trigger] s[i])
    &&& exists|i: int| 0 <= i < s.len() && numeric(#[trigger] s[i])
}

/// What becomes of the text `given` as a password: it is taken as it is,
/// if it is strong enough.
pub open spec fn password_of(given: Seq<char>) -> Result<Seq<char>, ValidationError> {
    if is_strong(given) {
        Ok(given)
    } else {
        Err(ValidationError::PasswordTooWeak)
    }
}

/// A user name that passed its check.
#[derive(Debug, PartialEq)]
pub struct Username(String);

/// An e-mail address that passed its check.
#[derive(Debug, PartialEq)]
pub struct Email(String);

/// A password that passed its check.
#[derive(Debug, PartialEq)]
pub struct Password(String);

impl View for Username {
    type V = Seq<char>;

    closed spec fn view(&self) -> Seq<char> {
        self.0@
    }
}

impl View for Email {
    type V = Seq<char>;

    closed spec fn view(&self) -> Seq<char> {
        self.0@
    }
}

impl View for Password {
    type V = Seq<char>;

    closed spec fn view(&self) -> Seq<char> {
        self.0@
    }
}

impl Clone for Username {
    fn clone(&self) -> (copy: Self)
        ensures
            copy@ == self@,
    {
        proof {
            use_type_invariant(self);
        }
        Username(self.0.clone())
    }
}

impl Clone for Email {
    fn clone(&self) -> (copy: Self)
        ensures
            copy@ == self@,
    {
        proof {
            use_type_invariant(self);
        }
        Email(self.0.clone())
    }
}

impl Clone for Password {
    fn clone(&self) -> (copy: Self)
        ensures
            copy@ == self@,
    {
        proof {
            use_type_invariant(self);
        }
        Password(self.0.clone())
    }
}

/// What a result of [`Username::new`] says, over views.
pub open spec fn username_outcome(result: Result<Username, ValidationError>) -> Result<
    Seq<char>,
    ValidationError,
> {
    match result {
        Ok(name) => Ok(name@),
        Err(error) => Err(error),
    }
}

/// What a result of [`Email::new`] says, over views.
pub open spec fn email_outcome(result: Result<Email, ValidationError>) -> Result<
    Seq<char>,
    ValidationError,
> {
    match result {
        Ok(email) => Ok(email@),
        Err(error) => Err(error),
    }
}

/// What a result of [`Password::new`] says, over views.
pub open spec fn password_outcome(result: Result<Password, ValidationError>) -> Result<
    Seq<char>,
    ValidationError,
> {
    match result {
        Ok(password) => Ok(password@),
        Err(error) => Err(error),
    }
}

impl Username {
    /// Every user name is the name of itself.
    #[verifier::type_invariant]
    spec fn checked(self) -> bool {
        username_of(self.0@) == Ok::<Seq<char>, ValidationError>(self.0@)
    }

    /// Checks `username` and keeps it, trimmed.
    pub fn new(username: &str) -> (result: Result<Self, ValidationError>)
        ensures
            username_outcome(result) == username_of(username@),
    {
        let name = trim(username);
        let length = byte_length(name.as_str());
        if length < USERNAME_MIN_LENGTH {
            return Err(ValidationError::UsernameTooShort);
        }
        if length > USERNAME_MAX_LENGTH {
            return Err(ValidationError::UsernameTooLong);
        }
        let chars = to_chars(name.as_str());
        let mut i: usize = 0;
        while i < chars.len()
            invariant
                i <= chars@.len(),
                chars@ == trimmed(username@),
                USERNAME_MIN_LENGTH <= byte_len(chars@) <= USERNAME_MAX_LENGTH,
                forall|k: int| 0 <= k < i ==> name_char(#[trigger] chars@[k]),
            decreases chars@.len() - i,
        {
            let c = chars[i];
            if !(c.is_alphanumeric() || c == '_') {
                assert(!name_char(chars@[i as int]));
                return Err(ValidationError::UsernameInvalidCharacters);
            }
            i += 1;
        }
        proof {
            lemma_trimmed_twice(username@);
        }
        Ok(Username(name))
    }

    pub fn as_str(&self) -> (name: &str)
        ensures
            name@ == self@,
            username_of(name@) == Ok::<Seq<char>, ValidationError>(name@),
    {
        proof {
            use_type_invariant(self);
        }
        self.0.as_str()
    }
}

impl Email {
    /// Every address has the form of one.
    #[verifier::type_invariant]
    spec fn checked(self) -> bool {
        is_address(self.0@)
    }

    /// Checks `email` and keeps it, trimmed and in lower case.
    pub fn new(email: &str) -> (result: Result<Self, ValidationError>)
        ensures
            email_outcome(result) == email_of(email@),
    {
        let address = trim(email).as_str().to_lowercase();
        let chars = to_chars(address.as_str());
        let n = chars.len();
        let mut has_point = false;
        let mut ats: usize = 0;
        let mut i: usize = 0;
        assert(chars@.take(0) == Seq::<char>::empty());
        while i < n
            invariant
                n == chars@.len(),
                i <= n,
                has_point <==> exists|k: int| 0 <= k < i && chars@[k] == '.',
                ats == count_of(chars@.take(i as int), '@'),
                ats <= i,
            decreases n - i,
        {
            assert(chars@.take(i + 1).drop_last() == chars@.take(i as int));
            if chars[i] == '.' {
                has_point = true;
            }
            if chars[i] == '@' {
                ats += 1;
            }
            i += 1;
        }
        proof {
            assert(chars@.take(n as int) == chars@);
            if has_point {
                let k = choose|k: int| 0 <= k < n && chars@[k] == '.';
                assert(chars@[k] == '.');
            }
        }
        if has_point && ats == 1 && chars[0] != '@' && chars[n - 1] != '@' {
            Ok(Email(address))
        } else {
            Err(ValidationError::EmailInvalidFormat)
        }
    }

    pub fn as_str(&self) -> (address: &str)
        ensures
            address@ == self@,
            is_address(address@),
    {
        proof {
            use_type_invariant(self);
        }
        self.0.as_str()
    }

    /// What follows the `@` of the address.
    pub fn domain(&self) -> (domain: &str)
        ensures
            domain@ == domain_of(self@),
    {
        let chars = to_chars(self.0.as_str());
        let n = chars.len();
        let mut at: usize = 0;
        while at < n && chars[at] != '@'
            invariant
                n == chars@.len(),
                at <= n,
                position_of(chars@, '@', 0) == position_of(chars@, '@', at as int),
            decreases n - at,
        {
            at += 1;
        }
        if at >= n {
            proof {
                reveal_strlit("");
            }
            return "";
        }
        let mut end: usize = at + 1;
        while end < n && chars[end] != '@'
            invariant
                n == chars@.len(),
                at < end <= n,
                position_of(chars@, '@', at + 1) == position_of(chars@, '@', end as int),
            decreases n - end,
        {
            end += 1;
        }
        self.0.as_str().substring_char(at + 1, end)
    }
}

impl Password {
    /// Every password is strong enough.
    #[verifier::type_invariant]
    spec fn checked(self) -> bool {
        is_strong(self.0@)
    }

    /// Checks `password` and keeps it as it is.
    pub fn new(password: &str) -> (result: Result<Self, ValidationError>)
        ensures
            password_outcome(result) == password_of(password@),
    {
        if byte_length(password) < PASSWORD_MIN_LENGTH {
            return Err(ValidationError::PasswordTooWeak);
        }
        let chars = to_chars(password);
        let n = chars.len();
        let mut has_letter = false;
        let mut has_digit = false;
        let mut i: usize = 0;
        while i < n
            invariant
                n == chars@.len(),
                i <= n,
                has_letter <==> exists|k: int| 0 <= k < i && alphabetic(#[trigger] chars@[k]),
                has_digit <==> exists|k: int| 0 <= k < i && numeric(#[trigger] chars@[k]),
            decreases n - i,
        {
            if chars[i].is_alphabetic() {
                has_letter = true;
            }
            if chars[i].is_numeric() {
                has_digit = true;
            }
            i += 1;
        }
        if !has_letter || !has_digit {
            return Err(ValidationError::PasswordTooWeak);
        }
        Ok(Password(String::from_str(password)))
    }

    /// Whether `input` is the password.
    pub fn verify(&self, input: &str) -> (same: bool)
        ensures
            same == (self@ == input@),
    {
        let given = String::from_str(input);
        self.0 == given
    }
}

/// A user's account: name, address and password, each checked.
pub struct UserAccount {
    username: Username,
    email: Email,
    password: Password,
}

impl UserAccount {
    /// The name of the account.
    pub closed spec fn name(&self) -> Seq<char> {
        self.username@
    }

    /// The address of the account.
    pub closed spec fn address(&self) -> Seq<char> {
        self.email@
    }

    /// The password of the account.
    pub closed spec fn secret(&self) -> Seq<char> {
        self.password@
    }

    pub fn new(username: Username, email: Email, password: Password) -> (account: Self)
        ensures
            account.name() == username@,
            account.address() == email@,
            account.secret() == password@,
    {
        UserAccount { username, email, password }
    }

    pub fn username(&self) -> (username: &Username)
        ensures
            username@ == self.name(),
    {
        &self.username
    }

    pub fn email(&self) -> (email: &Email)
        ensures
            email@ == self.address(),
    {
        &self.email
    }

    /// Whether `password` is the password of the account.
    pub fn verify_password(&self, password: &str) -> (same: bool)
        ensures
            same == (self.secret() == password@),
    {
        self.password.verify(password)
    }
}

/// Trimming what is trimmed changes nothing.
pub proof fn lemma_trimmed_twice(s: Seq<char>)
    ensures
        trimmed(trimmed(s)) == trimmed(s),
{
    let start = skip_whitespace(s, 0);
    lemma_skip_whitespace(s, 0);
    lemma_trim_end(s, start, s.len() as int);
    let t = trimmed(s);
    if t.len() > 0 {
        assert(t[0] == s[start]);
        assert(t[t.len() - 1] == s[start + t.len() - 1]);
        assert(skip_whitespace(t, 0) == 0);
        assert(trim_end(t, 0, t.len() as int) == t.len());
        assert(t.subrange(0, t.len() as int) == t);
    } else {
        assert(skip_whitespace(t, 0) == 0);
        assert(trim_end(t, 0, 0) == 0);
        assert(t.subrange(0, 0) == t);
    }
}

} // verus!
