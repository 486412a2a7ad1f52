//! Request validation for the user service.
//!
//! The email check implements the service's address grammar: a non-empty
//! local part, an `@`, a non-empty domain part, and a final label of at
//! least two letters after a dot.  Passwords exclude a fixed character
//! list and have a minimum length; usernames are bounded alphanumeric
//! words.  Every check states exactly which inputs it accepts.

use vstd::prelude::*;
use vstd::string::StrSliceExecFns;

use crate::ext::char_alphanumeric;
use crate::ext::is_alphanumeric_char;

verus! {

/// An ASCII letter.
pub open spec fn is_alpha(c: char) -> bool {
    ('a' <= c && c <= 'z') || ('A' <= c && c <= 'Z')
}

/// An ASCII letter or digit.
pub open spec fn is_alnum(c: char) -> bool {
    is_alpha(c) || ('0' <= c && c <= '9')
}

/// A character allowed in the local part of an address.
pub open spec fn is_local_char(c: char) -> bool {
    is_alnum(c) || c == '.' || c == '_' || c == '%' || c == '+' || c == '-'
}

/// A character allowed in the domain part of an address.
pub open spec fn is_domain_char(c: char) -> bool {
    is_alnum(c) || c == '.' || c == '-'
}

/// `i` and `j` split `s` into a well-formed address: a non-empty local
/// part before the `@` at `i`, a non-empty domain part between `@` and
/// the dot at `j`, and at least two letters after that dot.
pub open spec fn email_split(s: Seq<char>, i: int, j: int) -> bool {
    &&& 1 <= i
    &&& i + 2 <= j
    &&& j + 3 <= s.len()
    &&& s[i] == '@'
    &&& s[j] == '.'
    &&& (forall|k: int| 0 <= k < i ==> is_local_char(#[trigger] s[k]))
    &&& (forall|k: int| i < k < j ==> is_domain_char(#[trigger] s[k]))
    &&& (forall|k: int| j < k < s.len() ==> is_alpha(#[trigger] s[k]))
}

/// A well-formed address: some split of it is.
pub open spec fn email_ok(s: Seq<char>) -> bool {
    exists|i: int, j: int| email_split(s, i, j)
}

/// A character forbidden in passwords.
pub open spec fn is_forbidden_char(c: char) -> bool {
    ||| c == '!'
    ||| c == '*'
    ||| c == '&'
    ||| c == '^'
    ||| c == '%'
    ||| c == '$'
    ||| c == '#'
    ||| c == '@'
    ||| c == '('
    ||| c == ')'
    ||| c == '-'
    ||| c == '+'
    ||| c == '='
    ||| c == '['
    ||| c == ']'
    ||| c == '{'
    ||| c == '}'
    ||| c == '|'
    ||| c == '\\'
    ||| c == ':'
    ||| c == ';'
    ||| c == '"'
    ||| c == '\''
    ||| c == '<'
    ||| c == '>'
    ||| c == ','
    ||| c == '.'
    ||| c == '?'
    ||| c == '/'
    ||| c == '~'
    ||| c == '`'
}

/// An acceptable password: at least eight bytes, no forbidden character.
pub open spec fn password_ok(s: Seq<char>) -> bool {
    &&& vstd::utf8::encode_utf8(s).len() >= 8
    &&& (forall|k: int| 0 <= k < s.len() ==> !is_forbidden_char(#[trigger] s[k]))
}

/// An acceptable username: three to thirty bytes of letters, digits and
/// underscores.
pub open spec fn username_ok(s: Seq<char>) -> bool {
    &&& 3 <= vstd::utf8::encode_utf8(s).len() <= 30
    &&& (forall|k: int| 0 <= k < s.len() ==> char_alphanumeric(#[trigger] s[k]) || s[k] == '_')
}

/// Decides whether a character may appear in a local part.
fn is_local_char_exec(c: char) -> (r: bool)
    ensures
        r == is_local_char(c),
{
    ('a' <= c && c <= 'z') || ('A' <= c && c <= 'Z') || ('0' <= c && c <= '9') || c == '.' || c
        == '_' || c == '%' || c == '+' || c == '-'
}

/// Decides whether a character may appear in a domain part.
fn is_domain_char_exec(c: char) -> (r: bool)
    ensures
        r == is_domain_char(c),
{
    ('a' <= c && c <= 'z') || ('A' <= c && c <= 'Z') || ('0' <= c && c <= '9') || c == '.' || c
        == '-'
}

/// Decides whether a character is an ASCII letter.
fn is_alpha_exec(c: char) -> (r: bool)
    ensures
        r == is_alpha(c),
{
    ('a' <= c && c <= 'z') || ('A' <= c && c <= 'Z')
}

/// Decides whether a character is forbidden in passwords.
fn is_forbidden_char_exec(c: char) -> (r: bool)
    ensures
        r == is_forbidden_char(c),
{
    c == '!' || c == '*' || c == '&' || c == '^' || c == '%' || c == '$' || c == '#' || c == '@'
        || c == '(' || c == ')' || c == '-' || c == '+' || c == '=' || c == '[' || c == ']' || c
        == '{' || c == '}' || c == '|' || c == '\\' || c == ':' || c == ';' || c == '"' || c
        == '\'' || c == '<' || c == '>' || c == ',' || c == '.' || c == '?' || c == '/' || c == '~'
        || c == '`'
}

/// Locates the `@` of a possible split: the first `@`, with everything
/// before it a local character.  `None` means no split can exist.
fn find_at(email: &str) -> (r: Option<usize>)
    ensures
        r matches Some(a) ==> a < email@.len() && email@[a as int] == '@' && (forall|p: int|
            0 <= p < a ==> is_local_char(#[trigger] email@[p]) && email@[p] != '@'),
        r is None ==> !email_ok(email@),
{
    let n = email.unicode_len();
    let mut k: usize = 0;
    while k < n
        invariant
            n == email@.len(),
            k <= n,
            forall|p: int| 0 <= p < k ==> is_local_char(#[trigger] email@[p]) && email@[p] != '@',
        decreases n - k,
    {
        let c = email.get_char(k);
        if c == '@' {
            return Some(k);
        }
        if !is_local_char_exec(c) {
            proof {
                if email_ok(email@) {
                    let (i, j) = choose|i: int, j: int| email_split(email@, i, j);
                    if i <= k {
                        assert(email@[i] == '@');
                    } else {
                        assert(is_local_char(email@[k as int]));
                    }
                }
            }
            return None;
        }
        k = k + 1;
    }
    proof {
        if email_ok(email@) {
            let (i, j) = choose|i: int, j: int| email_split(email@, i, j);
            assert(email@[i] == '@');
        }
    }
    None
}

/// Checks an address against the service's grammar.
pub fn validate_email(email: &str) -> (r: Result<(), String>)
    ensures
        r is Ok <==> email_ok(email@),
        r matches Err(m) ==> m@ == "Invalid email format"@,
{
    let n = email.unicode_len();
    let a = match find_at(email) {
        Some(a) => a,
        None => {
            return Err("Invalid email format".to_owned());
        },
    };
    if a == 0 {
        proof {
            if email_ok(email@) {
                let (i, j) = choose|i: int, j: int| email_split(email@, i, j);
                lemma_at_forced(email@, a as int, i, j);
            }
        }
        return Err("Invalid email format".to_owned());
    }
    // Locate the last dot past the `@`; the letters-only tail rules every
    // earlier dot out.
    let mut k: usize = a + 1;
    let mut dot: usize = 0;
    let mut have_dot = false;
    while k < n
        invariant
            n == email@.len(),
            1 <= a < k,
            k <= n,
            email@[a as int] == '@',
            forall|p: int| 0 <= p < a ==> is_local_char(#[trigger] email@[p]) && email@[p] != '@',
            have_dot ==> a < dot < k && email@[dot as int] == '.',
            forall|p: int| a < p < k && email@[p] == '.' ==> have_dot && p <= dot,
        decreases n - k,
    {
        let c = email.get_char(k);
        if c == '.' {
            dot = k;
            have_dot = true;
        }
        k = k + 1;
    }
    if !have_dot {
        proof {
            if email_ok(email@) {
                let (i, j) = choose|i: int, j: int| email_split(email@, i, j);
                lemma_at_forced(email@, a as int, i, j);
                assert(email@[j] == '.');
            }
        }
        return Err("Invalid email format".to_owned());
    }
    proof {
        if email_ok(email@) {
            let (i, j) = choose|i: int, j: int| email_split(email@, i, j);
            lemma_at_forced(email@, a as int, i, j);
            if j < dot {
                assert(is_alpha(email@[dot as int]));
            }
            assert(j == dot);
        }
    }
    if dot < a + 2 {
        return Err("Invalid email format".to_owned());
    }
    if n - dot < 3 {
        return Err("Invalid email format".to_owned());
    }
    // Domain characters between the `@` and the dot.
    let mut k2: usize = a + 1;
    while k2 < dot
        invariant
            n == email@.len(),
            1 <= a,
            a + 2 <= dot,
            a < k2 <= dot,
            dot + 3 <= n,
            email@[a as int] == '@',
            email@[dot as int] == '.',
            forall|p: int| 0 <= p < a ==> is_local_char(#[trigger] email@[p]) && email@[p] != '@',
            forall|p: int| a < p < n && email@[p] == '.' ==> p <= dot,
            forall|p: int| a < p < k2 ==> is_domain_char(#[trigger] email@[p]),
        decreases dot - k2,
    {
        let c = email.get_char(k2);
        if !is_domain_char_exec(c) {
            proof {
                if email_ok(email@) {
                    let (i, j) = choose|i: int, j: int| email_split(email@, i, j);
                    lemma_at_forced(email@, a as int, i, j);
                    if j < dot {
                        assert(is_alpha(email@[dot as int]));
                    }
                    assert(j == dot);
                    assert(is_domain_char(email@[k2 as int]));
                }
            }
            return Err("Invalid email format".to_owned());
        }
        k2 = k2 + 1;
    }
    // Letters only after the dot.
    let mut k3: usize = dot + 1;
    while k3 < n
        invariant
            n == email@.len(),
            1 <= a,
            a + 2 <= dot,
            dot + 3 <= n,
            dot < k3 <= n,
            email@[a as int] == '@',
            email@[dot as int] == '.',
            forall|p: int| 0 <= p < a ==> is_local_char(#[trigger] email@[p]) && email@[p] != '@',
            forall|p: int| a < p < n && email@[p] == '.' ==> p <= dot,
            forall|p: int| a < p < dot ==> is_domain_char(#[trigger] email@[p]),
            forall|p: int| dot < p < k3 ==> is_alpha(#[trigger] email@[p]),
        decreases n - k3,
    {
        let c = email.get_char(k3);
        if !is_alpha_exec(c) {
            proof {
                if email_ok(email@) {
                    let (i, j) = choose|i: int, j: int| email_split(email@, i, j);
                    lemma_at_forced(email@, a as int, i, j);
                    if j < dot {
                        assert(is_alpha(email@[dot as int]));
                    }
                    assert(j == dot);
                    assert(is_alpha(email@[k3 as int]));
                }
            }
            return Err("Invalid email format".to_owned());
        }
        k3 = k3 + 1;
    }
    proof {
        assert(email_split(email@, a as int, dot as int));
    }
    Ok(())
}

/// With the first `@` at `a` and everything before it local, any split of
/// the address has its `@` exactly at `a`.
proof fn lemma_at_forced(s: Seq<char>, a: int, i: int, j: int)
    requires
        email_split(s, i, j),
        0 <= a < s.len(),
        s[a] == '@',
        forall|p: int| 0 <= p < a ==> is_local_char(#[trigger] s[p]) && s[p] != '@',
    ensures
        i == a,
{
    if i < a {
        assert(s[i] != '@');
    } else if i > a {
        // Position `a` would lie in the split's local part, and `@` is
        // not a local character.
        assert(is_local_char(s[a]));
    }
}

/// The message a failing password check reports: the length complaint
/// when the password is too short, else the forbidden-characters
/// complaint.
pub open spec fn password_err_message(s: Seq<char>) -> Seq<char> {
    if vstd::utf8::encode_utf8(s).len() < 8 {
        "Password must be at least 8 characters"@
    } else {
        "Password contains forbidden characters"@
    }
}

/// The message a failing username check reports: the length complaint
/// when the username is out of bounds, else the character-set complaint.
pub open spec fn username_err_message(s: Seq<char>) -> Seq<char> {
    if !(3 <= vstd::utf8::encode_utf8(s).len() <= 30) {
        "Username must be between 3 and 30 characters"@
    } else {
        "Username can only contain letters, numbers and underscore"@
    }
}

/// Checks a password: at least eight bytes, no forbidden character.
pub fn validate_password(password: &str) -> (r: Result<(), String>)
    ensures
        r is Ok <==> password_ok(password@),
        r matches Err(m) ==> m@ == password_err_message(password@),
{
    if password.as_bytes().len() < 8 {
        return Err("Password must be at least 8 characters".to_owned());
    }
    let n = password.unicode_len();
    let mut k: usize = 0;
    while k < n
        invariant
            n == password@.len(),
            k <= n,
            vstd::utf8::encode_utf8(password@).len() >= 8,
            forall|p: int| 0 <= p < k ==> !is_forbidden_char(#[trigger] password@[p]),
        decreases n - k,
    {
        let c = password.get_char(k);
        if is_forbidden_char_exec(c) {
            return Err("Password contains forbidden characters".to_owned());
        }
        k = k + 1;
    }
    Ok(())
}

/// Checks a username: three to thirty bytes of letters, digits and
/// underscores.
pub fn validate_username(username: &str) -> (r: Result<(), String>)
    ensures
        r is Ok <==> username_ok(username@),
        r matches Err(m) ==> m@ == username_err_message(username@),
{
    if username.as_bytes().len() < 3 || username.as_bytes().len() > 30 {
        return Err("Username must be between 3 and 30 characters".to_owned());
    }
    let n = username.unicode_len();
    let mut k: usize = 0;
    while k < n
        invariant
            n == username@.len(),
            k <= n,
            3 <= vstd::utf8::encode_utf8(username@).len() <= 30,
            forall|p: int|
                0 <= p < k ==> char_alphanumeric(#[trigger] username@[p]) || username@[p] == '_',
        decreases n - k,
    {
        let c = username.get_char(k);
        let ok = is_alphanumeric_char(c);
        if !ok && c != '_' {
            return Err("Username can only contain letters, numbers and underscore".to_owned());
        }
        k = k + 1;
    }
    Ok(())
}

/// A user-creation request as it arrives on the wire.
pub struct CreateUserRequest {
    pub email: String,
    pub username: String,
    pub password: String,
    pub role: i32,
}

/// A user-update request as it arrives on the wire: absent fields stay
/// unchanged.
pub struct UpdateUserRequest {
    pub id: String,
    pub email: Option<String>,
    pub username: Option<String>,
    pub password: Option<String>,
    pub role: Option<i32>,
}

/// Validates a creation request: the email, then the password, then the
/// username; the first failing check's own message is returned.
pub fn validate_create_user_request(req: &CreateUserRequest) -> (r: Result<(), String>)
    ensures
        r is Ok <==> (email_ok(req.email@) && password_ok(req.password@) && username_ok(
            req.username@,
        )),
        !email_ok(req.email@) ==> (r matches Err(m) && m@ == "Invalid email format"@),
        email_ok(req.email@) && !password_ok(req.password@) ==> (r matches Err(m) && m@
            == password_err_message(req.password@)),
        email_ok(req.email@) && password_ok(req.password@) && !username_ok(req.username@) ==> (
        r matches Err(m) && m@ == username_err_message(req.username@)),
{
    let e = validate_email(req.email.as_str());
    match e {
        Err(m) => Err(m),
        Ok(()) => {
            let p = validate_password(req.password.as_str());
            match p {
                Err(m) => Err(m),
                Ok(()) => {
                    let u = validate_username(req.username.as_str());
                    match u {
                        Err(m) => Err(m),
                        Ok(()) => Ok(()),
                    }
                },
            }
        },
    }
}

/// Whether an optional field is absent or empty.
pub open spec fn absent_or_empty(o: Option<Seq<char>>) -> bool {
    match o {
        Some(s) => s.len() == 0,
        None => true,
    }
}

/// The abstract value of an optional string field.
pub open spec fn opt_view(o: Option<String>) -> Option<Seq<char>> {
    match o {
        Some(s) => Some(s@),
        None => None,
    }
}

/// An update field that is present, non-empty, and fails its check.
pub open spec fn present_and_bad_email(o: Option<Seq<char>>) -> bool {
    match o {
        Some(s) => s.len() > 0 && !email_ok(s),
        None => false,
    }
}

/// An update field that is present, non-empty, and fails its check.
pub open spec fn present_and_bad_password(o: Option<Seq<char>>) -> bool {
    match o {
        Some(s) => s.len() > 0 && !password_ok(s),
        None => false,
    }
}

/// An update field that is present, non-empty, and fails its check.
pub open spec fn present_and_bad_username(o: Option<Seq<char>>) -> bool {
    match o {
        Some(s) => s.len() > 0 && !username_ok(s),
        None => false,
    }
}

/// Validates an update request: each present, non-empty field must pass
/// its check — the first failing check's own message is returned, in the
/// order email, password, username — and a request that changes nothing,
/// every text field absent or empty and the role reset to zero, is
/// rejected with its own message.
pub fn validate_update_user_request(req: &UpdateUserRequest) -> (r: Result<(), String>)
    ensures
        present_and_bad_email(opt_view(req.email)) ==> (r matches Err(m) && m@
            == "Invalid email format"@),
        !present_and_bad_email(opt_view(req.email)) ==> match opt_view(req.password) {
            Some(s) => (s.len() > 0 && !password_ok(s)) ==> (r matches Err(m) && m@
                == password_err_message(s)),
            None => true,
        },
        !present_and_bad_email(opt_view(req.email)) && !present_and_bad_password(
            opt_view(req.password),
        ) ==> match opt_view(req.username) {
            Some(s) => (s.len() > 0 && !username_ok(s)) ==> (r matches Err(m) && m@
                == username_err_message(s)),
            None => true,
        },
        (absent_or_empty(opt_view(req.email)) && absent_or_empty(opt_view(req.password))
            && absent_or_empty(opt_view(req.username)) && req.role == Some(0i32)) ==> (
        r matches Err(m) && m@
            == "At least one field must be non-empty and role must not be 0"@),
        r is Ok <==> {
            &&& (match opt_view(req.email) {
                Some(s) => s.len() == 0 || email_ok(s),
                None => true,
            })
            &&& (match opt_view(req.password) {
                Some(s) => s.len() == 0 || password_ok(s),
                None => true,
            })
            &&& (match opt_view(req.username) {
                Some(s) => s.len() == 0 || username_ok(s),
                None => true,
            })
            &&& !(absent_or_empty(opt_view(req.email)) && absent_or_empty(opt_view(req.password))
                && absent_or_empty(opt_view(req.username)) && req.role == Some(0i32))
        },
{
    match &req.email {
        Some(email) => {
            if !email.as_str().is_empty() {
                let e = validate_email(email.as_str());
                match e {
                    Err(m) => {
                        return Err(m);
                    },
                    Ok(()) => {},
                }
            }
        },
        None => {},
    }
    match &req.password {
        Some(password) => {
            if !password.as_str().is_empty() {
                let p = validate_password(password.as_str());
                match p {
                    Err(m) => {
                        return Err(m);
                    },
                    Ok(()) => {},
                }
            }
        },
        None => {},
    }
    match &req.username {
        Some(username) => {
            if !username.as_str().is_empty() {
                let u = validate_username(username.as_str());
                match u {
                    Err(m) => {
                        return Err(m);
                    },
                    Ok(()) => {},
                }
            }
        },
        None => {},
    }
    let email_empty = match &req.email {
        Some(s) => s.as_str().is_empty(),
        None => true,
    };
    let password_empty = match &req.password {
        Some(s) => s.as_str().is_empty(),
        None => true,
    };
    let username_empty = match &req.username {
        Some(s) => s.as_str().is_empty(),
        None => true,
    };
    let role_zero = match req.role {
        Some(role) => role == 0,
        None => false,
    };
    if email_empty && password_empty && username_empty && role_zero {
        return Err("At least one field must be non-empty and role must not be 0".to_owned());
    }
    Ok(())
}


} // verus!
