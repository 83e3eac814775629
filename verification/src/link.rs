use vstd::prelude::*;
use vstd::string::StringExecFns;
use crate::schema::Address;

verus! {

/// The text form of a link: the application instance, a colon, and the
/// message identifier.
pub open spec fn link_text(address: Address) -> Seq<char> {
    address.appInst@ + seq![':'] + address.msgId@
}

/// Builds the text that names `address` as a link, `appInst:msgId`.
pub fn tangle_link(address: &Address) -> (link: String)
    ensures
        link@ == link_text(*address),
        link@.len() == address.appInst@.len() + 1 + address.msgId@.len(),
        link@.subrange(0, address.appInst@.len() as int) == address.appInst@,
        link@[address.appInst@.len() as int] == ':',
        link@.subrange(address.appInst@.len() + 1int, link@.len() as int) == address.msgId@,
{
    let mut link = address.appInst.clone();
    link.append(":");
    link.append(address.msgId.as_str());
    proof {
        reveal_strlit(":");
        lemma_link_text_parts(*address);
    }
    link
}

/// A link is the whole application instance, then one colon, then the whole
/// message identifier.
pub proof fn lemma_link_text_parts(address: Address)
    ensures
        link_text(address).len() == address.appInst@.len() + 1 + address.msgId@.len(),
        link_text(address).subrange(0, address.appInst@.len() as int) == address.appInst@,
        link_text(address)[address.appInst@.len() as int] == ':',
        link_text(address).subrange(
            address.appInst@.len() + 1int,
            link_text(address).len() as int,
        ) == address.msgId@,
{
    let l = link_text(address);
    assert(l.subrange(0, address.appInst@.len() as int) =~= address.appInst@);
    assert(l.subrange(address.appInst@.len() + 1int, l.len() as int) =~= address.msgId@);
}

/// Whether a subscriber's channel (its application instance, if it knows
/// one) is the channel that an announcement was read from.
pub fn channel_matches(channel: &Option<String>, announced: &Address) -> (matched: bool)
    ensures
        matched == (channel matches Some(c) && c@ == announced.appInst@),
{
    match channel {
        Some(c) => c.eq(&announced.appInst),
        None => false,
    }
}

} // verus!
