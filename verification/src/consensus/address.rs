//! Peer addresses in multiaddress form.

use crate::text::texts;
use std::str::FromStr;
use vstd::prelude::*;

verus! {

/// Whether `text` is a well-formed multiaddress: whether the `multiaddr`
/// crate's parser accepts it.
pub uninterp spec fn is_multiaddr(text: Seq<char>) -> bool;

/// Runs `Multiaddr::from_str` of the `multiaddr` crate on `text` and reports
/// whether it succeeded. Trusted: the parser's verdict depends on `text`
/// alone, so it is the value of `is_multiaddr` on it.
#[verifier::external_body]
pub(crate) fn parses_as_multiaddr(text: &str) -> (ok: bool)
    ensures
        ok == is_multiaddr(text@),
{
    multiaddr::Multiaddr::from_str(text).is_ok()
}

/// The members of `peers` that are multiaddresses, in their order.
pub open spec fn valid_addresses(peers: Seq<Seq<char>>) -> Seq<Seq<char>> {
    peers.filter(|text: Seq<char>| is_multiaddr(text))
}

/// Keeps the members of `peers` that are multiaddresses and drops the others.
pub fn keep_multiaddrs(peers: &Vec<String>) -> (kept: Vec<String>)
    ensures
        texts(kept@) == valid_addresses(texts(peers@)),
{
    let ghost all = texts(peers@);
    let mut kept: Vec<String> = Vec::new();
    let mut i: usize = 0;
    assert(all.take(0) == Seq::<Seq<char>>::empty());
    while i < peers.len()
        invariant
            i <= peers.len(),
            all == texts(peers@),
            texts(kept@) == valid_addresses(all.take(i as int)),
        decreases peers.len() - i,
    {
        proof {
            assert(all.take(i + 1) == all.take(i as int).push(peers@[i as int]@));
            all.take(i as int).lemma_filter_push(
                peers@[i as int]@,
                |text: Seq<char>| is_multiaddr(text),
            );
        }
        if parses_as_multiaddr(peers[i].as_str()) {
            let ghost before = kept@;
            kept.push(peers[i].clone());
            assert(texts(kept@) == texts(before).push(peers@[i as int]@));
        }
        i = i + 1;
    }
    assert(all.take(peers.len() as int) == all);
    kept
}

} // verus!
