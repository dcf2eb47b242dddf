use vstd::prelude::*;
use vstd::string::{is_ascii, StringSliceAdditionalSpecFns};

verus! {

/// Why a registration or login request was refused before any lookup.
#[derive(Debug, Clone, Copy, PartialEq, Eq, Structural)]
pub enum UserError {
    InvalidName,
    InvalidPassword,
    NameExists,
}

/// A byte allowed in a user name: an ASCII letter or digit, `_` or `-`.
pub open spec fn is_name_byte(b: u8) -> bool {
    (48 <= b <= 57) || (65 <= b <= 90) || (97 <= b <= 122) || b == 95 || b == 45
}

/// A byte that is an ASCII hexadecimal digit, in either case.
pub open spec fn is_hex_byte(b: u8) -> bool {
    (48 <= b <= 57) || (65 <= b <= 70) || (97 <= b <= 102)
}

/// A user name: 3 to 100 name bytes.
pub open spec fn valid_name(bytes: Seq<u8>) -> bool {
    &&& 3 <= bytes.len() <= 100
    &&& forall|i: int| 0 <= i < bytes.len() ==> is_name_byte(#[trigger] bytes[i])
}

/// A character that is an ASCII hexadecimal digit, in either case.
pub open spec fn is_hex_char(c: char) -> bool {
    ('0' <= c <= '9') || ('A' <= c <= 'F') || ('a' <= c <= 'f')
}

/// A password as it travels from the client: 64 hexadecimal digits.
pub open spec fn valid_password_digest(chars: Seq<char>) -> bool {
    &&& chars.len() == 64
    &&& forall|i: int| 0 <= i < chars.len() ==> is_hex_char(#[trigger] chars[i])
}

/// What registration answers to the format of `name` and `password`.
pub open spec fn registration_check(name: Seq<u8>, password: Seq<char>) -> Result<(), UserError> {
    if !valid_name(name) {
        Err(UserError::InvalidName)
    } else if !valid_password_digest(password) {
        Err(UserError::InvalidPassword)
    } else {
        Ok(())
    }
}

/// What login answers to the format of `name` and `password`: both must be
/// non-empty.
pub open spec fn login_check(name: Seq<char>, password: Seq<char>) -> Result<(), UserError> {
    if name.len() == 0 {
        Err(UserError::InvalidName)
    } else if password.len() == 0 {
        Err(UserError::InvalidPassword)
    } else {
        Ok(())
    }
}

fn name_byte(b: u8) -> (r: bool)
    ensures
        r == is_name_byte(b),
{
    (48 <= b && b <= 57) || (65 <= b && b <= 90) || (97 <= b && b <= 122) || b == 95 || b == 45
}

fn hex_byte(b: u8) -> (r: bool)
    ensures
        r == is_hex_byte(b),
{
    (48 <= b && b <= 57) || (65 <= b && b <= 70) || (97 <= b && b <= 102)
}

/// Whether `name` is a well-formed user name.
pub fn is_valid_name(name: &str) -> (r: bool)
    ensures
        r == valid_name(name.spec_bytes()),
{
    let bytes = name.as_bytes();
    if bytes.len() < 3 || bytes.len() > 100 {
        return false;
    }
    let mut i: usize = 0;
    while i < bytes.len()
        invariant
            i <= bytes@.len(),
            bytes@ == name.spec_bytes(),
            forall|j: int| 0 <= j < i ==> is_name_byte(#[trigger] bytes@[j]),
        decreases bytes@.len() - i,
    {
        if !name_byte(bytes[i]) {
            return false;
        }
        i = i + 1;
    }
    true
}

/// Whether `password` is a well-formed password digest.
pub fn is_valid_password(password: &str) -> (r: bool)
    ensures
        r == valid_password_digest(password@),
{
    if !password.is_ascii() {
        proof {
            let k = choose|k: int| 0 <= k < password@.len() && !('\0' <= #[trigger] password@[k] <= '\u{7f}');
            assert(!is_hex_char(password@[k]));
        }
        return false;
    }
    proof {
        vstd::string::is_ascii_spec_bytes(password);
    }
    let bytes = password.as_bytes();
    if bytes.len() != 64 {
        return false;
    }
    let mut i: usize = 0;
    while i < bytes.len()
        invariant
            i <= bytes@.len(),
            bytes@.len() == password@.len(),
            bytes@ == Seq::new(password@.len(), |k: int| password@[k] as u8),
            is_ascii(password),
            forall|j: int| 0 <= j < i ==> is_hex_char(#[trigger] password@[j]),
        decreases bytes@.len() - i,
    {
        let ghost c = password@[i as int];
        assert(bytes@[i as int] == c as u8);
        assert('\0' <= c <= '\u{7f}');
        if !hex_byte(bytes[i]) {
            assert(!is_hex_char(c));
            return false;
        }
        assert(is_hex_char(c));
        i = i + 1;
    }
    true
}

/// Checks the format of a registration: the name first, then the password.
pub fn check_registration(name: &str, password: &str) -> (r: Result<(), UserError>)
    ensures
        r == registration_check(name.spec_bytes(), password@),
{
    if !is_valid_name(name) {
        Err(UserError::InvalidName)
    } else if !is_valid_password(password) {
        Err(UserError::InvalidPassword)
    } else {
        Ok(())
    }
}

/// Checks the format of a login: the name first, then the password.
pub fn check_login(name: &str, password: &str) -> (r: Result<(), UserError>)
    ensures
        r == login_check(name@, password@),
{
    if name.is_empty() {
        Err(UserError::InvalidName)
    } else if password.is_empty() {
        Err(UserError::InvalidPassword)
    } else {
        Ok(())
    }
}

} // verus!
