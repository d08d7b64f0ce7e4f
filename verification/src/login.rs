//! The client's sign-in form: how one frame of key presses changes it, and
//! when it asks for a login or sign-up request.

use crate::text::{copy_text, push_char};
use vstd::prelude::*;

verus! {

/// Whether the form signs in or creates an account.
#[derive(Debug, Clone, Copy, PartialEq, Eq, Structural)]
pub enum AuthMode {
    Login,
    Signup,
}

/// The field that receives typed characters.
#[derive(Debug, Clone, Copy, PartialEq, Eq, Structural)]
pub enum AuthField {
    Username,
    Password,
}

/// The request that the form asks for.
#[derive(Debug, Clone, Copy, PartialEq, Eq, Structural)]
pub enum AuthAction {
    Login,
    Signup,
}

/// The keys of one frame: Tab, F2, Backspace and Enter pressed or not, and
/// the characters typed, in order.
#[derive(Debug, Clone)]
pub struct LoginKeys {
    pub tab: bool,
    pub f2: bool,
    pub backspace: bool,
    pub typed: Vec<char>,
    pub enter: bool,
}

/// A request to send to the account service.
#[derive(Debug, Clone)]
pub struct AuthRequest {
    pub action: AuthAction,
    pub username: String,
    pub password: String,
}

/// Removes the last character of a text, if any, as `String::pop` does.
#[verifier::external_body]
fn pop_char(text: &mut String)
    ensures
        final(text)@ == if old(text)@.len() > 0 {
            old(text)@.drop_last()
        } else {
            old(text)@
        },
{
    text.pop();
}

/// Letters, digits, and `_ - .` and space may be typed.
pub open spec fn spec_accepts_login_char(c: char) -> bool {
    ||| ('0' <= c && c <= '9')
    ||| ('a' <= c && c <= 'z')
    ||| ('A' <= c && c <= 'Z')
    ||| c == '_'
    ||| c == '-'
    ||| c == ' '
    ||| c == '.'
}

pub fn accepts_login_char(c: char) -> (r: bool)
    ensures
        r == spec_accepts_login_char(c),
{
    ('0' <= c && c <= '9') || ('a' <= c && c <= 'z') || ('A' <= c && c <= 'Z') || c == '_' || c
        == '-' || c == ' ' || c == '.'
}

/// The accepted characters among those typed, in order.
pub open spec fn spec_accepted(typed: Seq<char>) -> Seq<char>
    decreases typed.len(),
{
    if typed.len() == 0 {
        Seq::empty()
    } else if spec_accepts_login_char(typed.last()) {
        spec_accepted(typed.drop_last()).push(typed.last())
    } else {
        spec_accepted(typed.drop_last())
    }
}

pub open spec fn spec_toggle_field(field: AuthField) -> AuthField {
    match field {
        AuthField::Username => AuthField::Password,
        AuthField::Password => AuthField::Username,
    }
}

pub open spec fn spec_toggle_mode(mode: AuthMode) -> AuthMode {
    match mode {
        AuthMode::Login => AuthMode::Signup,
        AuthMode::Signup => AuthMode::Login,
    }
}

pub open spec fn spec_pop(text: Seq<char>) -> Seq<char> {
    if text.len() > 0 {
        text.drop_last()
    } else {
        text
    }
}

/// The text of a field after one frame: Backspace first, then the accepted
/// characters.
pub open spec fn spec_edit(text: Seq<char>, backspace: bool, typed: Seq<char>) -> Seq<char> {
    (if backspace {
        spec_pop(text)
    } else {
        text
    }) + spec_accepted(typed)
}

pub open spec fn spec_action(mode: AuthMode) -> AuthAction {
    match mode {
        AuthMode::Login => AuthAction::Login,
        AuthMode::Signup => AuthAction::Signup,
    }
}

/// Applies one frame of keys. Tab switches the field, F2 switches between
/// login and sign-up and clears the error, Backspace and typed characters
/// edit the current field (an accepted character clears the error), and
/// Enter asks for a request unless one is already under way.
pub fn handle_login_input(
    username: &mut String,
    password: &mut String,
    field: &mut AuthField,
    mode: &mut AuthMode,
    request_pending: bool,
    error: &mut Option<String>,
    keys: &LoginKeys,
) -> (r: Option<AuthRequest>)
    ensures
        *final(field) == if keys.tab {
            spec_toggle_field(*old(field))
        } else {
            *old(field)
        },
        *final(mode) == if keys.f2 {
            spec_toggle_mode(*old(mode))
        } else {
            *old(mode)
        },
        final(username)@ == if *final(field) == AuthField::Username {
            spec_edit(old(username)@, keys.backspace, keys.typed@)
        } else {
            old(username)@
        },
        final(password)@ == if *final(field) == AuthField::Password {
            spec_edit(old(password)@, keys.backspace, keys.typed@)
        } else {
            old(password)@
        },
        (keys.f2 || spec_accepted(keys.typed@).len() > 0) ==> *final(error) is None,
        !(keys.f2 || spec_accepted(keys.typed@).len() > 0) ==> *final(error) == *old(error),
        r is Some <==> keys.enter && !request_pending,
        r matches Some(request) ==> request.action == spec_action(*final(mode))
            && request.username@ == final(username)@ && request.password@ == final(password)@,
{
    if keys.tab {
        *field = match *field {
            AuthField::Username => AuthField::Password,
            AuthField::Password => AuthField::Username,
        };
    }
    if keys.f2 {
        *mode = match *mode {
            AuthMode::Login => AuthMode::Signup,
            AuthMode::Signup => AuthMode::Login,
        };
        *error = None;
    }
    let editing_username = match *field {
        AuthField::Username => true,
        AuthField::Password => false,
    };
    if keys.backspace {
        if editing_username {
            pop_char(username);
        } else {
            pop_char(password);
        }
    }
    let ghost user_start = username@;
    let ghost pass_start = password@;
    let n = keys.typed.len();
    let mut i: usize = 0;
    while i < n
        invariant
            n == keys.typed@.len(),
            i <= n,
            editing_username ==> username@ == user_start + spec_accepted(
                keys.typed@.subrange(0, i as int),
            ) && password@ == pass_start,
            !editing_username ==> password@ == pass_start + spec_accepted(
                keys.typed@.subrange(0, i as int),
            ) && username@ == user_start,
            spec_accepted(keys.typed@.subrange(0, i as int)).len() > 0 ==> *error is None,
            spec_accepted(keys.typed@.subrange(0, i as int)).len() == 0 ==> *error == if keys.f2 {
                None
            } else {
                *old(error)
            },
        decreases n - i,
    {
        let c = keys.typed[i];
        let ghost next = keys.typed@.subrange(0, i + 1);
        assert(next.drop_last() =~= keys.typed@.subrange(0, i as int));
        assert(next.last() == c);
        if accepts_login_char(c) {
            if editing_username {
                push_char(username, c);
            } else {
                push_char(password, c);
            }
            *error = None;
        }
        i = i + 1;
    }
    assert(keys.typed@.subrange(0, n as int) =~= keys.typed@);
    if keys.enter && !request_pending {
        let action = match *mode {
            AuthMode::Login => AuthAction::Login,
            AuthMode::Signup => AuthAction::Signup,
        };
        return Some(
            AuthRequest {
                action,
                username: copy_text(username.as_str()),
                password: copy_text(password.as_str()),
            },
        );
    }
    None
}

/// How the sign-in form shows a password: one bullet per character.
pub open spec fn spec_password_mask(password: Seq<char>) -> Seq<char> {
    Seq::new(password.len(), |i: int| '\u{2022}')
}

/// The text that the password field shows.
pub fn password_mask(password: &str) -> (r: String)
    ensures
        r@ == spec_password_mask(password@),
{
    let n = password.unicode_len();
    let mut r = String::new();
    let mut i: usize = 0;
    while i < n
        invariant
            n == password@.len(),
            i <= n,
            r@ == Seq::new(i as nat, |k: int| '\u{2022}'),
        decreases n - i,
    {
        push_char(&mut r, '\u{2022}');
        assert(r@ =~= Seq::new((i + 1) as nat, |k: int| '\u{2022}'));
        i = i + 1;
    }
    r
}

/// Every ASCII letter and digit, and `_`, `-`, space and `.`, typed into a
/// field is appended to it, in the order typed.
pub proof fn lemma_form_characters_are_appended(text: Seq<char>, typed: Seq<char>)
    requires
        forall|i: int|
            0 <= i < typed.len() ==> {
                let c = #[trigger] typed[i];
                ||| ('0' <= c && c <= '9')
                ||| ('a' <= c && c <= 'z')
                ||| ('A' <= c && c <= 'Z')
                ||| c == '_'
                ||| c == '-'
                ||| c == ' '
                ||| c == '.'
            },
    ensures
        spec_edit(text, false, typed) == text + typed,
    decreases typed.len(),
{
    if typed.len() > 0 {
        let front = typed.drop_last();
        assert forall|i: int| 0 <= i < front.len() implies #[trigger] front[i] == typed[i] by {}
        lemma_form_characters_are_appended(text, front);
        assert(typed[typed.len() - 1] == typed.last());
        assert(front.push(typed.last()) =~= typed);
        assert(text + front.push(typed.last()) =~= (text + front).push(typed.last()));
    }
}

/// Any other character typed is left out: a frame that types only such
/// characters leaves the field as it was.
pub proof fn lemma_other_characters_are_dropped(text: Seq<char>, typed: Seq<char>)
    requires
        forall|i: int|
            0 <= i < typed.len() ==> {
                let c = #[trigger] typed[i];
                !('0' <= c && c <= '9') && !('a' <= c && c <= 'z') && !('A' <= c && c <= 'Z')
                    && c != '_' && c != '-' && c != ' ' && c != '.'
            },
    ensures
        spec_edit(text, false, typed) == text,
    decreases typed.len(),
{
    if typed.len() > 0 {
        let front = typed.drop_last();
        assert forall|i: int| 0 <= i < front.len() implies #[trigger] front[i] == typed[i] by {}
        lemma_other_characters_are_dropped(text, front);
        assert(typed[typed.len() - 1] == typed.last());
    } else {
        assert(text + Seq::<char>::empty() =~= text);
    }
}

} // verus!
