use vstd::prelude::*;

verus! {

/// The address of a message on a channel: the channel's application
/// instance and the message identifier, both in their text form.
#[allow(non_snake_case)]
#[derive(Debug, Clone, PartialEq, Eq)]
pub struct Address {
    pub appInst: String,
    pub msgId: String,
}

/// The credentials of a channel author: the password its state was exported
/// with and the exported state itself, Base64 (URL-safe, unpadded) encoded.
#[derive(Debug, Clone, PartialEq, Eq)]
pub struct Author {
    pub password: String,
    pub state: String,
}

/// What the service answers when an author is created or has published:
/// the author's seed, the address of its latest message and its credentials.
#[derive(Debug, Clone, PartialEq, Eq)]
pub struct AuthorSchema {
    pub seed: String,
    pub address: Address,
    pub author: Author,
}

/// The query of a fetch request: the address whose messages are read.
#[derive(Debug, Clone, PartialEq, Eq)]
pub struct FetchAllQuery {
    pub address: Address,
}

} // verus!
