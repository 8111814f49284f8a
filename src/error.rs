//! The errors a reconciliation pass can end with.
use vstd::prelude::*;

verus! {

/// Represents all possible errors that can occur during the configuration process.
#[derive(Clone, Debug, PartialEq, Eq)]
pub enum Error {
    /// The server could not be fetched.
    GuildNotFound,
    /// A call to the platform failed; the platform's message.
    SerenityError(String),
    /// A category or channel was not found.
    NotFound(String),
    /// A category or channel could not be created; its name.
    CreationFailed(String),
    /// A category or channel could not be updated; its name.
    UpdateFailed(String),
    /// Invalid data was provided.
    InvalidData(String),
}

impl Error {
    /// The fixed part of the message, and the detail that follows it.
    pub open spec fn parts(&self) -> (Seq<char>, Seq<char>) {
        match self {
            Error::GuildNotFound => ("PartialGuild not found"@, Seq::empty()),
            Error::SerenityError(s) => ("Serenity API error: "@, s@),
            Error::NotFound(s) => ("Category or channel not found: "@, s@),
            Error::CreationFailed(s) => ("Failed to create category or channel: "@, s@),
            Error::UpdateFailed(s) => ("Failed to update category or channel: "@, s@),
            Error::InvalidData(s) => ("Invalid data: "@, s@),
        }
    }

    /// A message for the operator.
    pub fn message(&self) -> (r: String)
        ensures
            r@ == self.parts().0 + self.parts().1,
    {
        let (head, detail) = match self {
            Error::GuildNotFound => ("PartialGuild not found", None),
            Error::SerenityError(s) => ("Serenity API error: ", Some(s)),
            Error::NotFound(s) => ("Category or channel not found: ", Some(s)),
            Error::CreationFailed(s) => ("Failed to create category or channel: ", Some(s)),
            Error::UpdateFailed(s) => ("Failed to update category or channel: ", Some(s)),
            Error::InvalidData(s) => ("Invalid data: ", Some(s)),
        };
        let r = String::from_str(head);
        match detail {
            Some(s) => r.concat(s.as_str()),
            None => {
                assert(r@ + Seq::<char>::empty() =~= r@);
                r
            },
        }
    }
}

} // verus!
