//! The dialogs that set the password and the key derivation of the notes
//! file. Each function takes the user's answers and decides; asking is left
//! to the caller.

use vstd::prelude::*;

use crate::encryption::CryptoError;
use crate::file::{saved, update_file};
use crate::globals::Globals;
use crate::text::str_eq;

verus! {

/// What must be asked before the password is known.
#[derive(Debug, PartialEq, Eq, Structural, Clone, Copy)]
pub enum PasswordQuestion {
    /// Nothing: the file is not encrypted, or the password is known.
    NoQuestion,
    /// The password of the file.
    Password,
    /// A new password, and the same again to confirm it.
    NewPassword,
}

/// What `get_password` needs to be asked: nothing for a file that is not
/// encrypted; a new password when changing it; the password when none is
/// known yet.
pub open spec fn spec_password_question(g: Globals, change: bool) -> PasswordQuestion {
    if g.derivation == 0 {
        PasswordQuestion::NoQuestion
    } else if change {
        PasswordQuestion::NewPassword
    } else if g.password@.len() == 0 {
        PasswordQuestion::Password
    } else {
        PasswordQuestion::NoQuestion
    }
}

/// Tells what must be asked before calling `get_password` (see
/// `spec_password_question`).
pub fn password_question(g: &Globals, change: bool) -> (r: PasswordQuestion)
    ensures
        r == spec_password_question(*g, change),
{
    if g.derivation == 0 {
        PasswordQuestion::NoQuestion
    } else if change {
        PasswordQuestion::NewPassword
    } else if g.password.as_str().is_empty() {
        PasswordQuestion::Password
    } else {
        PasswordQuestion::NoQuestion
    }
}

/// The file's password: `none` for a file that is not encrypted; the known
/// one unless it is to change; otherwise the one typed, which is kept. A
/// new password that is empty gives up (an empty result, nothing kept); one
/// whose confirmation differs gives `None`, and is to be asked again.
pub fn get_password(g: &mut Globals, change: bool, typed: &str, confirmation: &str) -> (r: Option<String>)
    ensures
        old(g).derivation == 0 ==> *final(g) == *old(g) && (r matches Some(p) && p@ == "none"@),
        old(g).derivation != 0 && !change && old(g).password@.len() > 0 ==> *final(g) == *old(g) && (r matches Some(
            p,
        ) && p@ == old(g).password@),
        old(g).derivation != 0 && !change && old(g).password@.len() == 0 ==> *final(g) == (Globals {
            password: final(g).password,
            ..*old(g)
        }) && final(g).password@ == typed@ && (r matches Some(p) && p@ == typed@),
        old(g).derivation != 0 && change && typed@.len() == 0 ==> *final(g) == *old(g) && (r matches Some(p)
            && p@.len() == 0),
        old(g).derivation != 0 && change && typed@.len() > 0 && typed@ != confirmation@ ==> *final(g) == *old(g)
            && r is None,
        old(g).derivation != 0 && change && typed@.len() > 0 && typed@ == confirmation@ ==> *final(g) == (Globals {
            password: final(g).password,
            ..*old(g)
        }) && final(g).password@ == typed@ && (r matches Some(p) && p@ == typed@),
{
    if g.derivation == 0 {
        return Some("none".to_string());
    }
    if !g.password.as_str().is_empty() && !change {
        return Some(g.password.clone());
    }
    if change {
        if typed.is_empty() {
            return Some(String::new());
        }
        if !str_eq(typed, confirmation) {
            return None;
        }
    }
    g.password = typed.to_string();
    Some(typed.to_string())
}

/// After a new password was set (`new_password`, as `get_password` gave
/// it), seals the notes text again with it; an empty one changes nothing.
pub fn change_password(g: &mut Globals, new_password: &str, text: String) -> (r: Option<
    Result<Vec<u8>, CryptoError>,
>)
    ensures
        new_password@.len() == 0 ==> r is None && *final(g) == *old(g),
        new_password@.len() > 0 ==> (r matches Some(res) && saved(*old(g), *final(g), res, text@)),
{
    if new_password.is_empty() {
        None
    } else {
        Some(update_file(g, text))
    }
}

/// The key derivation an answer picks: `1` interactive (faster), `2`
/// sensitive (more secure), `0` none (plain text).
pub open spec fn derivation_answer(answer: Seq<char>) -> Option<usize> {
    if answer == "0"@ {
        Some(0usize)
    } else if answer == "1"@ {
        Some(1usize)
    } else if answer == "2"@ {
        Some(2usize)
    } else {
        None
    }
}

/// Takes the key derivation the answer picks (see `derivation_answer`);
/// `false`, with nothing changed, means that the question is to be asked
/// again.
pub fn get_key_derivation(g: &mut Globals, answer: &str) -> (r: bool)
    ensures
        r == derivation_answer(answer@) is Some,
        derivation_answer(answer@) matches Some(d) ==> *final(g) == (Globals { derivation: d, ..*old(g) }),
        derivation_answer(answer@) is None ==> *final(g) == *old(g),
{
    proof {
        reveal_strlit("0");
        reveal_strlit("1");
        reveal_strlit("2");
    }
    if str_eq(answer, "0") {
        g.derivation = 0;
        true
    } else if str_eq(answer, "1") {
        g.derivation = 1;
        true
    } else if str_eq(answer, "2") {
        g.derivation = 2;
        true
    } else {
        false
    }
}

/// Changes the key derivation to the one the answer picks; tells whether a
/// password must now be set (the file was plain and no longer is). `None`
/// means that the question is to be asked again.
pub fn change_key_derivation(g: &mut Globals, answer: &str) -> (r: Option<bool>)
    ensures
        derivation_answer(answer@) is None ==> r is None && *final(g) == *old(g),
        derivation_answer(answer@) matches Some(d) ==> *final(g) == (Globals { derivation: d, ..*old(g) })
            && r == Some(old(g).derivation == 0 && d != 0),
{
    let og_deriv = g.derivation;
    if get_key_derivation(g, answer) {
        Some(og_deriv == 0 && g.derivation != 0)
    } else {
        None
    }
}

/// What the security menu offers.
#[derive(Debug, PartialEq, Eq, Structural, Clone, Copy)]
pub enum SecurityChoice {
    ChangePassword,
    ChangeKeyDerivation,
    Nothing,
}

/// The security menu: `1` changes the password, `2` the key derivation;
/// either is followed by sealing the notes again.
pub fn change_security(choice: &str) -> (r: SecurityChoice)
    ensures
        choice@ == "1"@ ==> r == SecurityChoice::ChangePassword,
        choice@ == "2"@ ==> r == SecurityChoice::ChangeKeyDerivation,
        choice@ != "1"@ && choice@ != "2"@ ==> r == SecurityChoice::Nothing,
{
    proof {
        reveal_strlit("1");
        reveal_strlit("2");
        assert("1"@[0] != "2"@[0]);
    }
    if str_eq(choice, "1") {
        SecurityChoice::ChangePassword
    } else if str_eq(choice, "2") {
        SecurityChoice::ChangeKeyDerivation
    } else {
        SecurityChoice::Nothing
    }
}

} // verus!
