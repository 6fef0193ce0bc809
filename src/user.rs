//! Identity references carried in handshakes.
use vstd::prelude::*;
use vstd::string::*;

verus! {

/// An identity carried by value: an optional id and an optional name.
#[derive(Clone, Debug, PartialEq, Eq)]
pub struct User {
    pub id: Option<String>,
    pub name: Option<String>,
}

/// The text shown for a user: "name (id)", the id alone, or a marker when
/// there is no id.
pub open spec fn user_text(u: User) -> Seq<char> {
    match u.id {
        Some(id) => match u.name {
            Some(name) => name@ + " ("@ + id@ + ")"@,
            None => id@,
        },
        None => "NO USER ID"@,
    }
}

impl User {
    /// The text shown for this user.
    pub fn display_text(&self) -> (r: String)
        ensures
            r@ == user_text(*self),
    {
        match &self.id {
            Some(id) => match &self.name {
                Some(name) => {
                    let text = String::from_str(name.as_str()).concat(" (").concat(id.as_str()).concat(
                        ")",
                    );
                    text
                },
                None => String::from_str(id.as_str()),
            },
            None => String::from_str("NO USER ID"),
        }
    }
}

} // verus!
