//! The query string of the approval page and the bespoke list in it:
//! `username=<name>&rpc_url=<url>&policies=[<policy>,<policy>,...]`, where
//! `<url>` is the percent-encoded RPC endpoint and each `<policy>` is the
//! percent-encoded JSON text of one policy.

use crate::error::SessionError;
use crate::felt::stark_prime;
use crate::json::{
    decoded_policy, lemma_policy_json_round_trip, policy_from_json, policy_json_of, policy_to_json,
};
use crate::model::{policy_texts, Policy, PolicyText};
use crate::percent::{
    is_unreserved, lemma_percent_encoded_plain, lemma_percent_round_trip, percent_decode,
    percent_decoded, percent_encode, percent_encoded,
};
use crate::text::{ascii_text, is_ascii_bytes, lemma_ascii_text_bytes};
use vstd::prelude::*;
use vstd::slice::slice_subrange;
use vstd::string::StringExecFns;
use vstd::utf8::{decode_utf8, encode_utf8, encode_utf8_decode_utf8};

verus! {

/// One policy as it stands in the list: its JSON text, percent-encoded.
pub open spec fn fragment(policy: PolicyText) -> Seq<u8> {
    percent_encoded(policy_json_of(policy))
}

/// The fragments of a list of policies, in order.
pub open spec fn fragments(policies: Seq<PolicyText>) -> Seq<Seq<u8>> {
    Seq::new(policies.len(), |i: int| fragment(policies[i]))
}

/// The items one after the other, with a comma between neighbours.
pub open spec fn joined(items: Seq<Seq<u8>>) -> Seq<u8>
    decreases items.len(),
{
    if items.len() == 0 {
        Seq::empty()
    } else if items.len() == 1 {
        items[0]
    } else {
        items[0] + seq![',' as u8] + joined(items.skip(1))
    }
}

/// The list of policies: the fragments, joined by commas, in square
/// brackets.
pub open spec fn policies_list(policies: Seq<PolicyText>) -> Seq<u8> {
    seq!['[' as u8] + joined(fragments(policies)) + seq![']' as u8]
}

/// The RPC endpoint as it stands in the query string: its UTF-8 bytes,
/// percent-encoded.
pub open spec fn endpoint_text(rpc_url: Seq<char>) -> Seq<char> {
    ascii_text(percent_encoded(encode_utf8(rpc_url)))
}

/// The query string for an account, an RPC endpoint and a list of policies.
/// The account stands as it is; the endpoint and the policies are
/// percent-encoded.
pub open spec fn query_text(
    username: Seq<char>,
    rpc_url: Seq<char>,
    policies: Seq<PolicyText>,
) -> Seq<char> {
    "username="@ + username + "&rpc_url="@ + endpoint_text(rpc_url) + "&policies="@ + ascii_text(
        policies_list(policies),
    )
}

/// The items of a comma-separated text, read from the front: `current` is
/// the item that has been read so far.
pub open spec fn split_from(text: Seq<u8>, current: Seq<u8>) -> Seq<Seq<u8>>
    decreases text.len(),
{
    if text.len() == 0 {
        seq![current]
    } else if text[0] == ',' as u8 {
        seq![current] + split_from(text.skip(1), Seq::empty())
    } else {
        split_from(text.skip(1), current.push(text[0]))
    }
}

/// The policies that a sequence of fragments stands for; `None` where one
/// of them stands for none.
pub open spec fn decoded_items(items: Seq<Seq<u8>>) -> Option<Seq<PolicyText>>
    decreases items.len(),
{
    if items.len() == 0 {
        Some(Seq::empty())
    } else {
        match percent_decoded(items[0]) {
            Some(json) => match (decoded_policy(json), decoded_items(items.skip(1))) {
                (Some(policy), Some(rest)) => Some(seq![policy] + rest),
                _ => None,
            },
            None => None,
        }
    }
}

/// The policies that a list stands for. `[]` is the empty list; any other
/// list holds one fragment or more between its brackets, separated by
/// commas.
pub open spec fn decoded_list(text: Seq<u8>) -> Option<Seq<PolicyText>> {
    if text.len() < 2 || text[0] != '[' as u8 || text.last() != ']' as u8 {
        None
    } else if text.len() == 2 {
        Some(Seq::empty())
    } else {
        decoded_items(split_from(text.subrange(1, text.len() - 1), Seq::empty()))
    }
}

/// The policies that the text of a list stands for.
pub open spec fn decoded_policies(text: Seq<char>) -> Option<Seq<PolicyText>> {
    decoded_list(encode_utf8(text))
}

proof fn lemma_joined_push(items: Seq<Seq<u8>>, last: Seq<u8>)
    ensures
        joined(items.push(last)) == if items.len() == 0 {
            last
        } else {
            joined(items) + seq![',' as u8] + last
        },
    decreases items.len(),
{
    let all = items.push(last);
    if items.len() == 1 {
        assert(joined(all.skip(1)) == last);
    } else if items.len() > 1 {
        lemma_joined_push(items.skip(1), last);
        assert(all.skip(1) =~= items.skip(1).push(last));
    }
}

/// The list of policies as it stands in the query string.
pub fn encode_policies(policies: &[Policy]) -> (r: Result<String, SessionError>)
    ensures
        r matches Ok(list) && list@ == ascii_text(policies_list(policy_texts(policies@))),
{
    let ghost texts = policy_texts(policies@);
    let ghost all = fragments(texts);
    let mut out = String::from_str("[");
    let mut i: usize = 0;
    proof {
        reveal_strlit("[");
        reveal_strlit(",");
        reveal_strlit("]");
    }
    while i < policies.len()
        invariant
            i <= policies.len(),
            texts == policy_texts(policies@),
            all == fragments(texts),
            out@ == ascii_text(seq!['[' as u8] + joined(all.take(i as int))),
            ","@ == seq![','],
        decreases policies.len() - i,
    {
        let json = match policy_to_json(&policies[i]) {
            Ok(json) => json,
            Err(error) => {
                return Err(error);
            },
        };
        let piece = percent_encode(json.as_slice());
        if i > 0 {
            out.append(",");
        }
        out.append(piece.as_str());
        proof {
            let done = all.take(i as int);
            let item = all[i as int];
            assert(all.take(i + 1) =~= done.push(item));
            lemma_joined_push(done, item);
        }
        i += 1;
    }
    out.append("]");
    proof {
        assert(all.take(i as int) =~= all);
    }
    Ok(out)
}

/// The query string of the approval page for `username`, the RPC endpoint
/// `rpc_url` and `policies`.
pub fn prepare_query_params(username: &str, rpc_url: &str, policies: &[Policy]) -> (r: Result<
    String,
    SessionError,
>)
    ensures
        r matches Ok(query) && query@ == query_text(username@, rpc_url@, policy_texts(policies@)),
{
    let list = match encode_policies(policies) {
        Ok(list) => list,
        Err(error) => {
            return Err(error);
        },
    };
    let endpoint = percent_encode(rpc_url.as_bytes());
    let mut out = String::from_str("username=");
    out.append(username);
    out.append("&rpc_url=");
    out.append(endpoint.as_str());
    out.append("&policies=");
    out.append(list.as_str());
    Ok(out)
}

spec fn with_policies(done: Seq<PolicyText>, tail: Option<Seq<PolicyText>>) -> Option<
    Seq<PolicyText>,
> {
    match tail {
        Some(rest) => Some(done + rest),
        None => None,
    }
}

spec fn decoded_fragment(item: Seq<u8>) -> Option<PolicyText> {
    match percent_decoded(item) {
        Some(json) => decoded_policy(json),
        None => None,
    }
}

proof fn lemma_decoded_items_step(item: Seq<u8>, later: Seq<Seq<u8>>, done: Seq<PolicyText>)
    ensures
        with_policies(done, decoded_items(seq![item] + later)) == match decoded_fragment(item) {
            Some(policy) => with_policies(done.push(policy), decoded_items(later)),
            None => None,
        },
{
    let items = seq![item] + later;
    assert(items.skip(1) =~= later);
}

fn decode_fragment(item: &[u8]) -> (r: Option<Policy>)
    ensures
        match r {
            Some(policy) => decoded_fragment(item@) == Some(policy@),
            None => decoded_fragment(item@) is None,
        },
{
    match percent_decode(item) {
        Some(json) => policy_from_json(json.as_slice()),
        None => None,
    }
}

/// Reads the list of policies back from its text.
pub fn decode_policies(text: &str) -> (r: Option<Vec<Policy>>)
    ensures
        match r {
            Some(policies) => decoded_policies(text@) == Some(policy_texts(policies@)),
            None => decoded_policies(text@) is None,
        },
{
    let bytes = text.as_bytes();
    let n = bytes.len();
    if n < 2 || bytes[0] != '[' as u8 || bytes[n - 1] != ']' as u8 {
        return None;
    }
    let mut out: Vec<Policy> = Vec::new();
    if n == 2 {
        return Some(out);
    }
    let ghost inner = bytes@.subrange(1, n - 1);
    let ghost whole = decoded_items(split_from(inner, Seq::empty()));
    let mut start: usize = 1;
    let mut i: usize = 1;
    proof {
        assert(inner.skip(0) =~= inner);
        assert(bytes@.subrange(1, 1) =~= Seq::<u8>::empty());
    }
    while i < n - 1
        invariant
            1 <= start <= i <= n - 1,
            n == bytes@.len(),
            inner == bytes@.subrange(1, n - 1),
            decoded_policies(text@) == whole,
            whole == with_policies(
                policy_texts(out@),
                decoded_items(
                    split_from(inner.skip(i - 1), bytes@.subrange(start as int, i as int)),
                ),
            ),
        decreases n - i,
    {
        let ghost rest = inner.skip(i - 1);
        let ghost current = bytes@.subrange(start as int, i as int);
        proof {
            assert(rest.skip(1) =~= inner.skip(i as int));
        }
        if bytes[i] == ',' as u8 {
            let item = slice_subrange(bytes, start, i);
            let ghost later = split_from(inner.skip(i as int), Seq::empty());
            proof {
                lemma_decoded_items_step(current, later, policy_texts(out@));
            }
            match decode_fragment(item) {
                Some(policy) => {
                    proof {
                        assert(bytes@.subrange(i + 1, i + 1) =~= Seq::<u8>::empty());
                    }
                    out.push(policy);
                    start = i + 1;
                },
                None => {
                    return None;
                },
            }
        } else {
            proof {
                assert(current.push(rest[0]) =~= bytes@.subrange(start as int, i + 1));
            }
        }
        i += 1;
    }
    let item = slice_subrange(bytes, start, n - 1);
    proof {
        lemma_decoded_items_step(item@, Seq::empty(), policy_texts(out@));
    }
    match decode_fragment(item) {
        Some(policy) => {
            out.push(policy);
            Some(out)
        },
        None => None,
    }
}

proof fn lemma_split_run(item: Seq<u8>, rest: Seq<u8>, current: Seq<u8>)
    requires
        forall|j: int| 0 <= j < item.len() ==> item[j] != ',' as u8,
    ensures
        split_from(item + rest, current) == split_from(rest, current + item),
    decreases item.len(),
{
    if item.len() > 0 {
        let text = item + rest;
        assert(text.skip(1) =~= item.skip(1) + rest);
        lemma_split_run(item.skip(1), rest, current.push(item[0]));
        assert(current.push(item[0]) + item.skip(1) =~= current + item);
    }
}

/// Splitting what was joined gives the items back, where there is an item
/// and none holds a comma.
pub proof fn lemma_split_joined(items: Seq<Seq<u8>>)
    requires
        items.len() >= 1,
        forall|i: int, j: int|
            0 <= i < items.len() && 0 <= j < items[i].len() ==> #[trigger] items[i][j] != ',' as u8,
    ensures
        split_from(joined(items), Seq::empty()) == items,
    decreases items.len(),
{
    let none = Seq::<u8>::empty();
    if items.len() == 1 {
        lemma_split_run(items[0], none, none);
    } else {
        let later = items.skip(1);
        let tail = seq![',' as u8] + joined(later);
        assert forall|i: int, j: int|
            0 <= i < later.len() && 0 <= j < later[i].len() implies #[trigger] later[i][j]
            != ',' as u8 by {}
        lemma_split_joined(later);
        lemma_split_run(items[0], tail, none);
        assert(joined(items) =~= items[0] + tail);
        assert(tail.skip(1) =~= joined(later));
    }
}

proof fn lemma_joined_plain(items: Seq<Seq<u8>>)
    requires
        forall|i: int, j: int|
            0 <= i < items.len() && 0 <= j < items[i].len() ==> #[trigger] items[i][j] < 128,
    ensures
        is_ascii_bytes(joined(items)),
        items.len() >= 1 && items[0].len() > 0 ==> joined(items).len() > 0,
    decreases items.len(),
{
    if items.len() == 1 {
        assert forall|j: int| 0 <= j < joined(items).len() implies #[trigger] joined(items)[j]
            < 128 by {}
    } else if items.len() > 1 {
        let later = items.skip(1);
        assert forall|i: int, j: int|
            0 <= i < later.len() && 0 <= j < later[i].len() implies #[trigger] later[i][j]
            < 128 by {}
        lemma_joined_plain(later);
        let text = joined(items);
        let head = items[0] + seq![',' as u8];
        assert forall|j: int| 0 <= j < text.len() implies #[trigger] text[j] < 128 by {
            if j >= head.len() {
                assert(text[j] == joined(later)[j - head.len()]);
            } else if j < items[0].len() {
                assert(text[j] == items[0][j]);
            }
        }
    }
}

proof fn lemma_decoded_fragments(policies: Seq<PolicyText>)
    requires
        forall|i: int| 0 <= i < policies.len() ==> (#[trigger] policies[i]).target < stark_prime(),
    ensures
        decoded_items(fragments(policies)) == Some(policies),
    decreases policies.len(),
{
    let items = fragments(policies);
    if policies.len() > 0 {
        let later = policies.skip(1);
        assert forall|i: int| 0 <= i < later.len() implies (#[trigger] later[i]).target
            < stark_prime() by {}
        lemma_decoded_fragments(later);
        assert(items.skip(1) =~= fragments(later));
        lemma_percent_round_trip(policy_json_of(policies[0]));
        lemma_policy_json_round_trip(policies[0]);
    }
}

/// The endpoint in the query string is made of unreserved characters and
/// `%` alone, so that none of `&`, `=`, `#`, `?` or `+` stands in it, and
/// percent-decoding it gives the endpoint back.
pub proof fn lemma_endpoint_round_trip(rpc_url: Seq<char>)
    ensures
        endpoint_text(rpc_url).len() == percent_encoded(encode_utf8(rpc_url)).len(),
        forall|i: int|
            0 <= i < endpoint_text(rpc_url).len() ==> {
                let b = #[trigger] percent_encoded(encode_utf8(rpc_url))[i];
                &&& endpoint_text(rpc_url)[i] == b as char
                &&& (is_unreserved(b) || b == 0x25)
            },
        percent_decoded(percent_encoded(encode_utf8(rpc_url))) == Some(encode_utf8(rpc_url)),
        decode_utf8(encode_utf8(rpc_url)) == rpc_url,
{
    lemma_percent_encoded_plain(encode_utf8(rpc_url));
    lemma_percent_round_trip(encode_utf8(rpc_url));
    encode_utf8_decode_utf8(rpc_url);
}

/// Reading the list of policies back from its text gives the policies, in
/// their order and with every target and method name as it was.
pub proof fn lemma_policies_round_trip(policies: Seq<PolicyText>)
    requires
        forall|i: int| 0 <= i < policies.len() ==> (#[trigger] policies[i]).target < stark_prime(),
    ensures
        decoded_policies(ascii_text(policies_list(policies))) == Some(policies),
{
    let items = fragments(policies);
    let list = policies_list(policies);
    assert forall|i: int, j: int|
        0 <= i < items.len() && 0 <= j < items[i].len() implies #[trigger] items[i][j] < 128
        && items[i][j] != ',' as u8 by {
        lemma_percent_encoded_plain(policy_json_of(policies[i]));
    }
    lemma_joined_plain(items);
    assert forall|j: int| 0 <= j < list.len() implies #[trigger] list[j] < 128 by {
        if 1 <= j < list.len() - 1 {
            assert(list[j] == joined(items)[j - 1]);
        }
    }
    lemma_ascii_text_bytes(list);
    if policies.len() > 0 {
        lemma_policy_json_round_trip(policies[0]);
        lemma_percent_encoded_plain(policy_json_of(policies[0]));
        assert(list.subrange(1, list.len() - 1) =~= joined(items));
        lemma_split_joined(items);
        lemma_decoded_fragments(policies);
    }
}

} // verus!
