//! Users, their roles, and the kinds of change synchronised to the server.

use vstd::prelude::*;
use vstd::string::*;

verus! {

#[derive(Debug, Clone, Copy, PartialEq, Eq, Structural)]
pub enum UserRole {
    Admin,
    Lead,
    Researcher,
    Viewer,
}

#[derive(Debug, Clone, Copy, PartialEq, Eq, Structural)]
pub enum PoleshiftPermissions {
    AdminPermission,
    LeadPermission,
    ResearcherPermission,
    ViewerPermission,
}

/// The kind of a recorded change.
#[derive(Debug, Clone, Copy, PartialEq, Eq, Structural)]
pub enum UpdateType {
    PUT,
    PATCH,
    DELETE,
}

impl UpdateType {
    pub open spec fn name(&self) -> Seq<char> {
        match self {
            UpdateType::PUT => "PUT"@,
            UpdateType::PATCH => "PATCH"@,
            UpdateType::DELETE => "DELETE"@,
        }
    }

    /// The kind's name in capitals.
    pub fn as_string(&self) -> (r: String)
        ensures
            r@ == self.name(),
    {
        match self {
            UpdateType::PUT => String::from_str("PUT"),
            UpdateType::PATCH => String::from_str("PATCH"),
            UpdateType::DELETE => String::from_str("DELETE"),
        }
    }
}

/// Index of the first '@' of `s`, if any.
pub open spec fn first_at(s: Seq<char>) -> Option<int> {
    if exists|i: int| 0 <= i < s.len() && s[i] == '@' {
        Some(
            choose|i: int|
                0 <= i < s.len() && s[i] == '@' && forall|k: int| 0 <= k < i ==> s[k] != '@',
        )
    } else {
        None
    }
}

/// The part of an address before its first '@'. Fails when there is no '@',
/// or nothing before it, or nothing after it.
pub fn local_part_of_email(email: &str) -> (r: Result<&str, String>)
    ensures
        match r {
            Ok(local) => exists|i: int|
                0 < i < email@.len() - 1 && email@[i] == '@' && (forall|k: int|
                    0 <= k < i ==> email@[k] != '@') && local@ == email@.take(i),
            Err(m) => {
                ||| (forall|k: int| 0 <= k < email@.len() ==> email@[k] != '@') && m@
                    == "Email must contain '@'"@
                ||| email@.len() > 0 && email@[0] == '@' && m@ == "Local part is empty"@
                ||| (exists|i: int|
                    0 < i && i == email@.len() - 1 && email@[i] == '@' && forall|k: int|
                        0 <= k < i ==> email@[k] != '@') && m@ == "Domain part is empty"@
            },
        },
{
    let n = email.unicode_len();
    let mut i: usize = 0;
    while i < n && email.get_char(i) != '@'
        invariant
            n == email@.len(),
            i <= n,
            forall|k: int| 0 <= k < i ==> email@[k] != '@',
        decreases n - i,
    {
        i = i + 1;
    }
    if i == n {
        return Err(String::from_str("Email must contain '@'"));
    }
    if i == 0 {
        return Err(String::from_str("Local part is empty"));
    }
    if i + 1 == n {
        return Err(String::from_str("Domain part is empty"));
    }
    Ok(email.substring_char(0, i))
}

} // verus!
