use vstd::prelude::*;
use crate::schema::{Address, Author, AuthorSchema};
use crate::codec::{url_safe_no_pad_encoding, encoding_fits, encode_state};

verus! {

/// The record handed out for an author: its seed, the address of its latest
/// message, the password its state was exported with, and that exported
/// state encoded by `encode_state`.
pub fn author_schema(address: Address, password: String, exported: &[u8], seed: String) -> (record:
    AuthorSchema)
    requires
        encoding_fits(exported@.len()),
    ensures
        record.seed == seed,
        record.address == address,
        record.author.password == password,
        record.author.state@ == url_safe_no_pad_encoding(exported@),
{
    let state = encode_state(exported);
    AuthorSchema { seed, address, author: Author { password, state } }
}

} // verus!
