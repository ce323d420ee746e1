//! The key under which the state of a client lives in the store.

use crate::address::lemma_text_injective;
use crate::entities::Identity;
use crate::entities::RequestIdentifier;
use vstd::prelude::*;
use vstd::string::StringExecFns;

verus! {

/// The prefix of the key of a network address.
pub open spec fn ip_prefix() -> Seq<char> {
    seq!['r', 'l', ':', 'i', 'p', '_']
}

/// The prefix of the key of a custom identifier.
pub open spec fn custom_prefix() -> Seq<char> {
    seq!['r', 'l', ':', 'c', 's', 't', '_']
}

/// The key of an identity: `rl:ip_` and the address in its textual form, or `rl:cst_`, the
/// name, a colon and the value.
pub open spec fn request_key(identity: Identity) -> Seq<char> {
    match identity {
        Identity::Ip(address) => ip_prefix() + address.text(),
        Identity::Custom { key, value } => custom_prefix() + key + seq![':'] + value,
    }
}

/// Whether the name and value of the custom identity `a` read as those of the custom identity
/// `b` once joined by a colon: the name of `b` is that of `a`, a colon and some more, and the
/// value of `a` is that rest, a colon and the value of `b`.
pub open spec fn mistaken_for(a: Identity, b: Identity) -> bool {
    match (a, b) {
        (Identity::Custom { key, value }, Identity::Custom { key: longer, value: shorter }) => {
            &&& key.len() < longer.len()
            &&& longer.subrange(0, key.len() as int) == key
            &&& longer[key.len() as int] == ':'
            &&& value == longer.subrange(key.len() as int + 1, longer.len() as int) + seq![':'] + shorter
        },
        _ => false,
    }
}

/// Builds the key of an identifier.
pub fn build_request_key(request_identifier: &RequestIdentifier) -> (r: String)
    ensures
        r@ == request_key(request_identifier@),
{
    proof {
        reveal_strlit("rl:ip_");
        reveal_strlit("rl:cst_");
        reveal_strlit(":");
    }
    match request_identifier {
        RequestIdentifier::Ip(address) => {
            let mut out = String::from_str("rl:ip_");
            address.append_to(&mut out);
            out
        },
        RequestIdentifier::Custom { key, value } => {
            let mut out = String::from_str("rl:cst_");
            out.append(key.as_str());
            out.append(":");
            out.append(value.as_str());
            out
        },
    }
}

/// A name, a colon and a value read the same as another name, a colon and another value only
/// where the two are the same or the longer name holds the colon at which the other ends.
proof fn lemma_joined_by_colon(
    key: Seq<char>,
    value: Seq<char>,
    longer: Seq<char>,
    shorter: Seq<char>,
)
    requires
        key.len() <= longer.len(),
        key + seq![':'] + value == longer + seq![':'] + shorter,
    ensures
        key.len() == longer.len() ==> key == longer && value == shorter,
        key.len() < longer.len() ==> mistaken_for(
            Identity::Custom { key, value },
            Identity::Custom { key: longer, value: shorter },
        ),
{
    let left = key + seq![':'] + value;
    let right = longer + seq![':'] + shorter;
    assert(left.len() == key.len() + 1 + value.len());
    assert(right.len() == longer.len() + 1 + shorter.len());
    assert forall|i: int| 0 <= i < key.len() implies key[i] == longer[i] by {
        assert(left[i] == key[i]);
        assert(right[i] == longer[i]);
    }
    if key.len() == longer.len() {
        assert(key =~= longer);
        assert forall|i: int| 0 <= i < value.len() implies value[i] == shorter[i] by {
            assert(left[key.len() + 1 + i] == value[i]);
            assert(right[longer.len() + 1 + i] == shorter[i]);
        }
        assert(left.len() == right.len());
        assert(value =~= shorter);
    } else {
        assert(longer.subrange(0, key.len() as int) =~= key);
        assert(left[key.len() as int] == ':');
        assert(right[key.len() as int] == longer[key.len() as int]);
        let rest = longer.subrange(key.len() as int + 1, longer.len() as int) + seq![':'] + shorter;
        assert(left.len() == right.len());
        assert forall|i: int| 0 <= i < value.len() implies value[i] == rest[i] by {
            assert(left[key.len() + 1 + i] == value[i]);
            if key.len() + 1 + i < longer.len() {
                assert(right[key.len() + 1 + i] == longer[key.len() + 1 + i]);
            } else if key.len() + 1 + i == longer.len() {
                assert(right[key.len() + 1 + i] == ':');
            } else {
                assert(right[key.len() + 1 + i] == shorter[key.len() + 1 + i - longer.len() - 1]);
            }
        }
        assert(value =~= rest);
    }
}

/// Two different identities have different keys, except for two custom identities of which one
/// is mistaken for the other: those, and only those, share a key.
pub proof fn law_request_key_injective(a: Identity, b: Identity)
    requires
        a != b,
    ensures
        request_key(a) == request_key(b) <==> mistaken_for(a, b) || mistaken_for(b, a),
{
    match (a, b) {
        (Identity::Ip(address), Identity::Ip(other)) => {
            if request_key(a) == request_key(b) {
                assert(address.text() =~= request_key(a).subrange(6, request_key(a).len() as int));
                assert(other.text() =~= request_key(b).subrange(6, request_key(b).len() as int));
                lemma_text_injective(address, other);
            }
        },
        (Identity::Ip(_), Identity::Custom { .. }) => {
            assert(request_key(a)[3] == 'i');
            assert(request_key(b)[3] == 'c');
        },
        (Identity::Custom { .. }, Identity::Ip(_)) => {
            assert(request_key(a)[3] == 'c');
            assert(request_key(b)[3] == 'i');
        },
        (Identity::Custom { key, value }, Identity::Custom { key: other_key, value: other_value }) => {
            let left = key + seq![':'] + value;
            let right = other_key + seq![':'] + other_value;
            assert(request_key(a) =~= custom_prefix() + left);
            assert(request_key(b) =~= custom_prefix() + right);
            if request_key(a) == request_key(b) {
                assert(left =~= request_key(a).subrange(7, request_key(a).len() as int));
                assert(right =~= request_key(b).subrange(7, request_key(b).len() as int));
                if key.len() <= other_key.len() {
                    lemma_joined_by_colon(key, value, other_key, other_value);
                } else {
                    lemma_joined_by_colon(other_key, other_value, key, value);
                }
            }
            if mistaken_for(a, b) {
                let rest = other_key.subrange(key.len() as int + 1, other_key.len() as int);
                assert(other_key =~= key + seq![':'] + rest);
                assert(left =~= right);
            }
            if mistaken_for(b, a) {
                let rest = key.subrange(other_key.len() as int + 1, key.len() as int);
                assert(key =~= other_key + seq![':'] + rest);
                assert(left =~= right);
            }
        },
    }
}

/// Two different identities have different keys where no name of a custom identity holds a
/// colon.
pub proof fn law_request_key_injective_without_colons(a: Identity, b: Identity)
    requires
        a != b,
        a is Custom ==> crate::text::free_of(a->key, ':'),
        b is Custom ==> crate::text::free_of(b->key, ':'),
    ensures
        request_key(a) != request_key(b),
{
    law_request_key_injective(a, b);
}

} // verus!
