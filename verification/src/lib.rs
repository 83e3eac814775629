//! Verified core of a small HTTP service that publishes JSON messages on IOTA
//! Streams channels: the records that the service hands out, the text form of
//! a channel link, random seeds and passwords, the Base64 form of exported
//! author state, and the framing of message payloads that are published and
//! fetched back.

mod schema;
mod link;
mod codec;
mod seed;
mod payload;
mod fetch;
mod author;

pub use schema::{Address, Author, AuthorSchema, FetchAllQuery};
pub use link::{tangle_link, link_text, lemma_link_text_parts, channel_matches};
pub use codec::{
    url_safe_alphabet, url_safe_symbol, url_safe_no_pad_encoding, lemma_encoding_shape,
    url_safe_no_pad_decoding, encoded_len, encoding_fits,
    encoding_fits_usize, lemma_encoding_fits_by_arithmetic, encode_state, decode_state, StateError,
};
pub use seed::{randomSeed, seed_from_indices, hex_digits, is_hex_text};
pub use payload::{
    json_object_members, json_value_of, joined_members, object_text, payload_bytes,
    payload_from_json_text, frame_json_text, prepare_payload, PublishError, PayloadError,
    payload_text, decode_masked_payload,
};
pub use fetch::{
    MessageContent, message_text, carries, carries_some_text, reads_as,
    decodable_sizes, payload_texts, non_empty_texts, lemma_texts_read_back_in_order,
    lemma_payload_texts_are_the_non_empty_texts, FetchError,
    extract_payload_texts, parse_payload_values,
    fetch_all_values,
};
pub use author::author_schema;
