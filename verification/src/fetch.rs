use vstd::prelude::*;
use crate::payload::{
    PayloadError, payload_text, payload_bytes, decode_masked_payload, json_value_of,
    parse_json_value,
};

verus! {

/// What the service reads of a message fetched from a channel: the masked
/// payload of a signed packet, or nothing for any other kind of message.
#[derive(Debug, Clone, PartialEq, Eq)]
pub enum MessageContent {
    SignedPacket { masked_payload: Vec<u8> },
    Other,
}

/// The text a message carries: the text of a signed packet's payload, the
/// empty text for other messages, or why the payload cannot be read.
pub open spec fn message_text(m: MessageContent) -> Result<Seq<char>, PayloadError> {
    match m {
        MessageContent::SignedPacket { masked_payload } => payload_text(masked_payload@),
        MessageContent::Other => Ok(Seq::empty()),
    }
}

/// Whether a message is a signed packet whose payload frames `json`.
pub open spec fn carries(m: MessageContent, json: Seq<char>) -> bool {
    m matches MessageContent::SignedPacket { masked_payload } && masked_payload@ == payload_bytes(
        json,
    )
}

/// Whether a message is a signed packet whose payload frames some text.
pub open spec fn carries_some_text(m: MessageContent) -> bool {
    exists|json: Seq<char>| #[trigger] carries(m, json)
}

/// Whether a message is read back as `json`: it is not a signed packet and
/// `json` is empty, or it is a signed packet whose payload frames `json`.
pub open spec fn reads_as(m: MessageContent, json: Seq<char>) -> bool {
    (m is Other && json.len() == 0) || carries(m, json)
}

/// Whether every payload of the messages is short enough to be decoded.
pub open spec fn decodable_sizes(msgs: Seq<MessageContent>) -> bool {
    forall|i: int|
        0 <= i < msgs.len() ==> (#[trigger] msgs[i] matches MessageContent::SignedPacket {
            masked_payload,
        } ==> masked_payload@.len() <= usize::MAX - 7)
}

/// The non-empty texts that the messages carry, in the order of the
/// messages, skipping messages whose payload cannot be read.
pub open spec fn payload_texts(msgs: Seq<MessageContent>) -> Seq<Seq<char>>
    decreases msgs.len(),
{
    if msgs.len() == 0 {
        Seq::empty()
    } else {
        let earlier = payload_texts(msgs.drop_last());
        match message_text(msgs.last()) {
            Ok(text) => if text.len() == 0 {
                earlier
            } else {
                earlier.push(text)
            },
            Err(_) => earlier,
        }
    }
}

/// The non-empty texts among `texts`, in order.
pub open spec fn non_empty_texts(texts: Seq<Seq<char>>) -> Seq<Seq<char>>
    decreases texts.len(),
{
    if texts.len() == 0 {
        Seq::empty()
    } else {
        let earlier = non_empty_texts(texts.drop_last());
        if texts.last().len() == 0 {
            earlier
        } else {
            earlier.push(texts.last())
        }
    }
}

/// Messages whose texts can be read are read back as their non-empty texts,
/// in the order of the messages.
pub proof fn lemma_texts_read_back_in_order(msgs: Seq<MessageContent>, texts: Seq<Seq<char>>)
    requires
        texts.len() == msgs.len(),
        forall|i: int|
            0 <= i < msgs.len() ==> #[trigger] message_text(msgs[i]) == Ok::<
                Seq<char>,
                PayloadError,
            >(texts[i]),
    ensures
        payload_texts(msgs) == non_empty_texts(texts),
    decreases msgs.len(),
{
    if msgs.len() > 0 {
        let m = msgs.drop_last();
        let t = texts.drop_last();
        assert forall|i: int| 0 <= i < m.len() implies #[trigger] message_text(m[i]) == Ok::<
            Seq<char>,
            PayloadError,
        >(t[i]) by {
            assert(m[i] == msgs[i]);
        }
        lemma_texts_read_back_in_order(m, t);
        assert(message_text(msgs[msgs.len() - 1]) == Ok::<Seq<char>, PayloadError>(
            texts[texts.len() - 1],
        ));
    }
}

/// The texts read from the messages are exactly their non-empty texts, one
/// per message, in message order: `positions[k]` is the message that the
/// `k`-th text comes from, the positions increase, and every message whose
/// text is non-empty is among them. So two messages with equal texts give
/// that text twice.
pub proof fn lemma_payload_texts_are_the_non_empty_texts(msgs: Seq<MessageContent>) -> (positions:
    Seq<int>)
    ensures
        positions.len() == payload_texts(msgs).len(),
        forall|k: int|
            0 <= k < positions.len() ==> 0 <= #[trigger] positions[k] < msgs.len() && message_text(
                msgs[positions[k]],
            ) == Ok::<Seq<char>, PayloadError>(payload_texts(msgs)[k]) && payload_texts(msgs)[k].len()
                > 0,
        forall|k: int, l: int| 0 <= k < l < positions.len() ==> positions[k] < positions[l],
        forall|i: int|
            0 <= i < msgs.len() && (#[trigger] message_text(msgs[i]) matches Ok(t) && t.len() > 0)
                ==> positions.contains(i),
    decreases msgs.len(),
{
    if msgs.len() == 0 {
        Seq::empty()
    } else {
        let earlier = msgs.drop_last();
        let prev = lemma_payload_texts_are_the_non_empty_texts(earlier);
        let last = msgs.len() - 1;
        assert(msgs[last] == msgs.last());
        assert forall|i: int| 0 <= i < earlier.len() implies #[trigger] msgs[i] == earlier[i] by {}
        let positions = if message_text(msgs.last()) matches Ok(t) && t.len() > 0 {
            prev.push(last)
        } else {
            prev
        };
        assert forall|k: int| 0 <= k < positions.len() implies 0 <= #[trigger] positions[k]
            < msgs.len() && message_text(msgs[positions[k]]) == Ok::<Seq<char>, PayloadError>(
            payload_texts(msgs)[k],
        ) && payload_texts(msgs)[k].len() > 0 by {
            if k < prev.len() {
                assert(positions[k] == prev[k]);
                assert(msgs[prev[k]] == earlier[prev[k]]);
            }
        }
        assert forall|i: int|
            0 <= i < msgs.len() && (#[trigger] message_text(msgs[i]) matches Ok(t) && t.len()
                > 0) implies positions.contains(i) by {
            if i < last {
                assert(message_text(earlier[i]) == message_text(msgs[i]));
                let j = choose|j: int| 0 <= j < prev.len() && prev[j] == i;
                assert(positions[j] == i);
            } else {
                assert(positions[positions.len() - 1] == i);
            }
        }
        positions
    }
}

/// Why fetched messages could not be turned into JSON values.
#[derive(Debug, Clone, Copy, PartialEq, Eq, Structural)]
pub enum FetchError {
    /// The payload of message `index` cannot be read.
    Undecodable { index: usize, error: PayloadError },
    /// Text `index` of the non-empty texts is not JSON.
    NotJson { index: usize },
}

/// Reads the non-empty texts that the messages carry, in order. Fails at
/// the first message whose payload cannot be read.
pub fn extract_payload_texts(msgs: &Vec<MessageContent>) -> (r: Result<Vec<String>, FetchError>)
    requires
        decodable_sizes(msgs@),
    ensures
        r is Ok <==> forall|i: int| 0 <= i < msgs.len() ==> #[trigger] message_text(msgs@[i]) is Ok,
        r matches Ok(texts) ==> texts@.map_values(|s: String| s@) == payload_texts(msgs@),
        r matches Ok(texts) ==> exists|positions: Seq<int>|
            positions.len() == texts.len() && (forall|k: int|
                0 <= k < positions.len() ==> 0 <= #[trigger] positions[k] < msgs.len()
                    && message_text(msgs@[positions[k]]) == Ok::<Seq<char>, PayloadError>(
                    texts@[k]@,
                ) && texts@[k]@.len() > 0) && (forall|k: int, l: int|
                0 <= k < l < positions.len() ==> positions[k] < positions[l]) && (forall|i: int|
                0 <= i < msgs.len() && (#[trigger] message_text(msgs@[i]) matches Ok(t) && t.len()
                    > 0) ==> positions.contains(i)),
        r matches Err(e) ==> (e matches FetchError::Undecodable { index, error } && index
            < msgs.len() && message_text(msgs@[index as int]) == Err::<Seq<char>, PayloadError>(
            error) && forall|i: int| 0 <= i < index ==> #[trigger] message_text(msgs@[i]) is Ok),
        r is Ok ==> forall|i: int, json: Seq<char>|
            0 <= i < msgs.len() && #[trigger] carries(msgs@[i], json) ==> message_text(msgs@[i])
                == Ok::<Seq<char>, PayloadError>(json),
        (forall|i: int|
            0 <= i < msgs.len() ==> msgs@[i] is Other || #[trigger] carries_some_text(msgs@[i]))
            ==> r is Ok,
        forall|jsons: Seq<Seq<char>>|
            #![trigger non_empty_texts(jsons)]
            #![trigger jsons.len()]
            jsons.len() == msgs.len() && (forall|i: int|
                0 <= i < msgs.len() ==> #[trigger] reads_as(msgs@[i], jsons[i])) ==> (r matches Ok(
                texts) && texts@.map_values(|s: String| s@) == non_empty_texts(jsons)),
{
    let mut texts: Vec<String> = Vec::new();
    let mut k: usize = 0;
    while k < msgs.len()
        invariant
            k <= msgs.len(),
            decodable_sizes(msgs@),
            forall|i: int| 0 <= i < k ==> #[trigger] message_text(msgs@[i]) is Ok,
            forall|i: int, json: Seq<char>|
                0 <= i < k && #[trigger] carries(msgs@[i], json) ==> message_text(msgs@[i])
                    == Ok::<Seq<char>, PayloadError>(json),
            texts@.map_values(|s: String| s@) == payload_texts(msgs@.subrange(0, k as int)),
        decreases msgs.len() - k,
    {
        let ghost before = texts@.map_values(|s: String| s@);
        assert(msgs@.subrange(0, k + 1).drop_last() =~= msgs@.subrange(0, k as int));
        assert(msgs@.subrange(0, k + 1).last() == msgs@[k as int]);
        match &msgs[k] {
            MessageContent::SignedPacket { masked_payload } => {
                assert(decodable_sizes(msgs@) ==> masked_payload@.len() <= usize::MAX - 7);
                match decode_masked_payload(masked_payload.as_slice()) {
                    Ok(text) => {
                        if !text.as_str().is_empty() {
                            texts.push(text);
                            assert(texts@.map_values(|s: String| s@) =~= before.push(
                                texts@[texts@.len() - 1]@,
                            ));
                        }
                    },
                    Err(error) => {
                        proof {
                            assert(!carries_some_text(msgs@[k as int])) by {
                                if carries_some_text(msgs@[k as int]) {
                                    let json = choose|json: Seq<char>|
                                        carries(msgs@[k as int], json);
                                    assert(masked_payload@ == payload_bytes(json));
                                }
                            }
                            assert forall|jsons: Seq<Seq<char>>|
                                #![trigger jsons.len()]
                                jsons.len() == msgs.len() && (forall|i: int|
                                    0 <= i < msgs.len() ==> #[trigger] reads_as(
                                        msgs@[i],
                                        jsons[i],
                                    )) implies false by {
                                assert(reads_as(msgs@[k as int], jsons[k as int]));
                                assert(carries(msgs@[k as int], jsons[k as int]));
                            }
                        }
                        return Err(FetchError::Undecodable { index: k, error });
                    },
                }
            },
            MessageContent::Other => {},
        }
        k = k + 1;
    }
    assert(msgs@.subrange(0, msgs@.len() as int) =~= msgs@);
    assert forall|jsons: Seq<Seq<char>>|
        jsons.len() == msgs.len() && (forall|i: int|
            0 <= i < msgs.len() ==> #[trigger] reads_as(msgs@[i], jsons[i])) implies texts@.map_values(
        |s: String| s@,
    ) == #[trigger] non_empty_texts(jsons) by {
        assert forall|i: int| 0 <= i < msgs.len() implies #[trigger] message_text(msgs@[i])
            == Ok::<Seq<char>, PayloadError>(jsons[i]) by {
            assert(reads_as(msgs@[i], jsons[i]));
            if msgs@[i] is Other {
                assert(jsons[i] =~= Seq::<char>::empty());
            }
        }
        lemma_texts_read_back_in_order(msgs@, jsons);
    }
    proof {
        let positions = lemma_payload_texts_are_the_non_empty_texts(msgs@);
        let view = texts@.map_values(|s: String| s@);
        assert forall|k: int| 0 <= k < texts.len() implies #[trigger] texts@[k]@ == payload_texts(
            msgs@,
        )[k] by {
            assert(view[k] == texts@[k]@);
        }
    }
    Ok(texts)
}

/// Parses each text as a JSON value, in order. Fails at the first text that
/// is not JSON.
pub fn parse_payload_values(texts: &Vec<String>) -> (r: Result<
    Vec<serde_json::Value>,
    FetchError,
>)
    ensures
        r is Ok <==> forall|i: int|
            0 <= i < texts.len() ==> json_value_of(#[trigger] texts@[i]@) is Some,
        r matches Ok(values) ==> values.len() == texts.len() && forall|i: int|
            0 <= i < texts.len() ==> json_value_of(#[trigger] texts@[i]@) == Some(values@[i]),
        r matches Err(e) ==> (e matches FetchError::NotJson { index } && index < texts.len()
            && json_value_of(texts@[index as int]@) is None && forall|i: int|
            0 <= i < index ==> json_value_of(#[trigger] texts@[i]@) is Some),
{
    let mut values: Vec<serde_json::Value> = Vec::new();
    let mut k: usize = 0;
    while k < texts.len()
        invariant
            k <= texts.len(),
            values.len() == k,
            forall|i: int| 0 <= i < k ==> json_value_of(#[trigger] texts@[i]@) == Some(values@[i]),
        decreases texts.len() - k,
    {
        match parse_json_value(texts[k].as_str()) {
            Ok(value) => values.push(value),
            Err(_) => {
                return Err(FetchError::NotJson { index: k });
            },
        }
        k = k + 1;
    }
    Ok(values)
}

/// Turns fetched messages into the JSON values their payloads carry: the
/// non-empty texts, in order, each parsed as JSON. Messages that are not
/// signed packets, and payloads that carry the empty text, are skipped.
/// Messages read back as JSON texts give back the values of those texts, in
/// order.
pub fn fetch_all_values(msgs: &Vec<MessageContent>) -> (r: Result<
    Vec<serde_json::Value>,
    FetchError,
>)
    requires
        decodable_sizes(msgs@),
    ensures
        r matches Err(FetchError::Undecodable { index, error }) ==> (index < msgs.len()
            && message_text(msgs@[index as int]) == Err::<Seq<char>, PayloadError>(error)
            && forall|i: int| 0 <= i < index ==> #[trigger] message_text(msgs@[i]) is Ok),
        r matches Err(FetchError::NotJson { index }) ==> ((forall|i: int|
            0 <= i < msgs.len() ==> #[trigger] message_text(msgs@[i]) is Ok) && index
            < payload_texts(msgs@).len() && json_value_of(payload_texts(msgs@)[index as int]) is None
            && forall|k: int|
            0 <= k < index ==> json_value_of(#[trigger] payload_texts(msgs@)[k]) is Some),
        r is Ok <==> (forall|i: int| 0 <= i < msgs.len() ==> #[trigger] message_text(msgs@[i]) is Ok)
            && (forall|k: int|
            0 <= k < payload_texts(msgs@).len() ==> json_value_of(#[trigger] payload_texts(msgs@)[k])
                is Some),
        r matches Ok(values) ==> values.len() == payload_texts(msgs@).len() && values.len()
            <= msgs.len() && forall|k: int|
            0 <= k < values.len() ==> json_value_of(#[trigger] payload_texts(msgs@)[k]) == Some(
                values@[k],
            ),
        !(r matches Err(FetchError::Undecodable { .. })) ==> forall|i: int, json: Seq<char>|
            0 <= i < msgs.len() && #[trigger] carries(msgs@[i], json) ==> message_text(msgs@[i])
                == Ok::<Seq<char>, PayloadError>(json),
        forall|jsons: Seq<Seq<char>>|
            #![trigger non_empty_texts(jsons)]
            jsons.len() == msgs.len() && (forall|i: int|
                0 <= i < msgs.len() ==> #[trigger] reads_as(msgs@[i], jsons[i])) && (forall|k: int|
                0 <= k < non_empty_texts(jsons).len() ==> json_value_of(
                    #[trigger] non_empty_texts(jsons)[k],
                ) is Some) ==> (r matches Ok(values) && values.len() == non_empty_texts(jsons).len()
                && forall|k: int|
                0 <= k < values.len() ==> json_value_of(#[trigger] non_empty_texts(jsons)[k])
                    == Some(values@[k])),
{
    let texts = match extract_payload_texts(msgs) {
        Ok(texts) => texts,
        Err(e) => {
            proof {
                assert forall|jsons: Seq<Seq<char>>|
                    #![trigger non_empty_texts(jsons)]
                    jsons.len() == msgs.len() && (forall|i: int|
                        0 <= i < msgs.len() ==> #[trigger] reads_as(msgs@[i], jsons[i])) implies false by {
                    assert forall|i: int| 0 <= i < msgs.len() implies msgs@[i] is Other
                        || #[trigger] carries_some_text(msgs@[i]) by {
                        assert(reads_as(msgs@[i], jsons[i]));
                        if !(msgs@[i] is Other) {
                            assert(carries(msgs@[i], jsons[i]));
                        }
                    }
                }
            }
            return Err(e);
        },
    };
    let ghost view = texts@.map_values(|s: String| s@);
    assert forall|k: int| 0 <= k < texts.len() implies texts@[k]@ == #[trigger] payload_texts(
        msgs@,
    )[k] by {
        assert(view[k] == texts@[k]@);
    }
    proof {
        lemma_payload_texts_no_longer(msgs@);
    }
    let r = parse_payload_values(&texts);
    proof {
        assert forall|jsons: Seq<Seq<char>>|
            #![trigger non_empty_texts(jsons)]
            jsons.len() == msgs.len() && (forall|i: int|
                0 <= i < msgs.len() ==> #[trigger] reads_as(msgs@[i], jsons[i])) && (forall|k: int|
                0 <= k < non_empty_texts(jsons).len() ==> json_value_of(
                    #[trigger] non_empty_texts(jsons)[k],
                ) is Some) implies (r matches Ok(values) && values.len() == non_empty_texts(
            jsons,
        ).len() && forall|k: int|
            0 <= k < values.len() ==> json_value_of(#[trigger] non_empty_texts(jsons)[k]) == Some(
                values@[k],
            )) by {
            assert(view == non_empty_texts(jsons));
            assert forall|k: int| 0 <= k < texts.len() implies json_value_of(
                #[trigger] texts@[k]@,
            ) is Some by {
                assert(texts@[k]@ == view[k]);
            }
            if let Ok(values) = r {
                assert forall|k: int| 0 <= k < values.len() implies json_value_of(
                    #[trigger] non_empty_texts(jsons)[k],
                ) == Some(values@[k]) by {
                    assert(texts@[k]@ == view[k]);
                }
            }
        }
    }
    r
}

/// There are no more texts than messages.
proof fn lemma_payload_texts_no_longer(msgs: Seq<MessageContent>)
    ensures
        payload_texts(msgs).len() <= msgs.len(),
    decreases msgs.len(),
{
    if msgs.len() > 0 {
        lemma_payload_texts_no_longer(msgs.drop_last());
    }
}

} // verus!
