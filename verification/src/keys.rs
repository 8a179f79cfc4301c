//! Threshold keys: one secret share per peer, and the public key set that all peers share.

use crate::ids::{max_evil_spec, PeerId};
use crate::peer_map::{ids_of, lemma_ids_of, view_map};
use std::collections::BTreeMap;
use vstd::prelude::*;
use vstd::slice::slice_to_vec;

verus! {

broadcast use {vstd::std_specs::btree::group_btree_axioms, vstd::laws_cmp::group_laws_cmp};

/// The two sets of threshold keys of a federation.
#[derive(Clone, Copy, Debug, PartialEq, Eq, Hash, Structural)]
pub enum KeyType {
    /// The keys of the consensus protocol.
    Hbbft,
    /// The keys that sign epochs.
    Epoch,
}

/// The random number generator from which keys are drawn.
#[verifier::external_type_specification]
#[verifier::external_body]
pub struct ExStdRng(rand::rngs::StdRng);

/// The error of `hbbft::NetworkInfo::generate_map`, carried without a look inside.
#[verifier::external_type_specification]
#[verifier::external_body]
pub struct ExCryptoError(hbbft::crypto::error::Error);

/// Whether `serde_json` reads a `hbbft::crypto::SecretKeyShare` from `text`.
pub uninterp spec fn is_secret_share(text: Seq<char>) -> bool;

/// Whether `serde_json` reads a `hbbft::crypto::PublicKeySet` from `text`.
pub uninterp spec fn is_key_set(text: Seq<char>) -> bool;

/// The bytes of `SecretKeyShare::public_key_share` of the secret share that `secret` encodes.
pub uninterp spec fn public_share(secret: Seq<char>) -> Seq<u8>;

/// The bytes of `PublicKeySet::public_key_share` of the key set that `set` encodes, at `index`.
pub uninterp spec fn key_set_share(set: Seq<char>, index: int) -> Seq<u8>;

/// `PublicKeySet::threshold` of the key set that `set` encodes: one more share than that can
/// use the key, and that many cannot.
pub uninterp spec fn key_set_threshold(set: Seq<char>) -> int;

/// Whether the secret share is the one at `index` of the key set.
pub open spec fn share_matches(secret: Seq<char>, set: Seq<char>, index: int) -> bool {
    public_share(secret) == key_set_share(set, index)
}

/// Whether `dealt` is one set of threshold keys for `peers`: the peers in ascending order, each
/// with its secret share and with the public key set, which is the same for all; the share of
/// the peer at position `i` is the key set's share `i`.
pub open spec fn is_deal(peers: Set<PeerId>, dealt: Seq<(PeerId, String, String)>) -> bool {
    &&& dealt.len() == ids_of(peers).len()
    &&& forall|i: int|
        0 <= i < dealt.len() ==> {
            &&& (#[trigger] dealt[i]).0 == ids_of(peers)[i]
            &&& is_secret_share(dealt[i].1@)
            &&& is_key_set(dealt[i].2@)
            &&& dealt[i].2@ == dealt[0].2@
            &&& share_matches(dealt[i].1@, dealt[i].2@, i)
        }
}

/// Calls `serde_json::from_str` and says whether the text encodes a secret share.
#[verifier::external_body]
fn reads_secret_share(text: &str) -> (reads: bool)
    ensures
        reads == is_secret_share(text@),
{
    serde_json::from_str::<hbbft::crypto::SecretKeyShare>(text).is_ok()
}

/// Calls `serde_json::from_str` and says whether the text encodes a public key set.
#[verifier::external_body]
fn reads_key_set(text: &str) -> (reads: bool)
    ensures
        reads == is_key_set(text@),
{
    serde_json::from_str::<hbbft::crypto::PublicKeySet>(text).is_ok()
}

/// Calls `hbbft::crypto::SecretKeyShare::public_key_share` and gives the share as bytes, which
/// are equal exactly when the shares are.
#[verifier::external_body]
fn secret_public_share(secret: &str) -> (share: Vec<u8>)
    requires
        is_secret_share(secret@),
    ensures
        share@ == public_share(secret@),
{
    let secret: hbbft::crypto::SecretKeyShare = serde_json::from_str(secret).unwrap();
    secret.public_key_share().to_bytes().to_vec()
}

/// Calls `hbbft::crypto::PublicKeySet::public_key_share` and gives the share as bytes, which
/// are equal exactly when the shares are.
#[verifier::external_body]
fn set_public_share(set: &str, index: usize) -> (share: Vec<u8>)
    requires
        is_key_set(set@),
    ensures
        share@ == key_set_share(set@, index as int),
{
    let set: hbbft::crypto::PublicKeySet = serde_json::from_str(set).unwrap();
    set.public_key_share(index).to_bytes().to_vec()
}

/// Calls `hbbft::NetworkInfo::generate_map`, which deals one random set of threshold keys: the
/// distinct ids in ascending order, each with its secret share, and with the public key set,
/// which is the same for all. The share of the id at position `i` is the key set's share `i`.
/// The set's threshold is the number of members that may misbehave. Dealing fails for no one;
/// it panics if there is nobody to deal to.
#[verifier::external_body]
fn generate_map(ids: &Vec<PeerId>, rng: &mut rand::rngs::StdRng) -> (res: Result<
    Vec<(PeerId, String, String)>,
    hbbft::crypto::error::Error,
>)
    requires
        ids@.len() > 0,
    ensures
        res is Ok,
        is_deal(ids@.to_set(), res->Ok_0@),
        forall|i: int|
            0 <= i < res->Ok_0@.len() ==> key_set_threshold((#[trigger] res->Ok_0@[i]).2@)
                == max_evil_spec(ids@.to_set().len() as int),
{
    let infos = hbbft::NetworkInfo::generate_map(ids.clone(), rng)?;
    Ok(infos.iter().map(|(id, info)| {
        let secret = hbbft::crypto::serde_impl::SerdeSecret(info.secret_key_share().unwrap());
        let secret = serde_json::to_string(&secret).unwrap();
        (*id, secret, serde_json::to_string(info.public_key_set()).unwrap())
    }).collect())
}

/// A peer's secret share of a threshold key, encoded as JSON.
pub struct SecretKeyShare {
    encoding: String,
}

/// The public side of a threshold key, encoded as JSON.
#[derive(Debug)]
pub struct PublicKeySet {
    encoding: String,
}

impl View for SecretKeyShare {
    type V = Seq<char>;

    closed spec fn view(&self) -> Seq<char> {
        self.encoding@
    }
}

impl View for PublicKeySet {
    type V = Seq<char>;

    closed spec fn view(&self) -> Seq<char> {
        self.encoding@
    }
}

impl Clone for SecretKeyShare {
    fn clone(&self) -> (copy: Self)
        ensures
            copy@ == self@,
    {
        proof {
            use_type_invariant(self);
        }
        SecretKeyShare { encoding: self.encoding.clone() }
    }
}

impl Clone for PublicKeySet {
    fn clone(&self) -> (copy: Self)
        ensures
            copy@ == self@,
    {
        proof {
            use_type_invariant(self);
        }
        PublicKeySet { encoding: self.encoding.clone() }
    }
}

impl SecretKeyShare {
    #[verifier::type_invariant]
    spec fn is_encoding(self) -> bool {
        is_secret_share(self.encoding@)
    }

    /// The secret share that `text` encodes, if it encodes one.
    pub fn from_json(text: String) -> (share: Option<Self>)
        ensures
            match share {
                Some(share) => is_secret_share(text@) && share@ == text@,
                None => !is_secret_share(text@),
            },
    {
        if reads_secret_share(text.as_str()) {
            Some(SecretKeyShare { encoding: text })
        } else {
            None
        }
    }

    /// The share's encoding.
    pub fn as_json(&self) -> (text: &str)
        ensures
            text@ == self@,
    {
        self.encoding.as_str()
    }

    /// The public side of the share, as bytes.
    pub fn public_key_share(&self) -> (share: Vec<u8>)
        ensures
            share@ == public_share(self@),
    {
        proof {
            use_type_invariant(self);
        }
        secret_public_share(self.encoding.as_str())
    }
}

impl PublicKeySet {
    #[verifier::type_invariant]
    spec fn is_encoding(self) -> bool {
        is_key_set(self.encoding@)
    }

    /// The key set that `text` encodes, if it encodes one.
    pub fn from_json(text: String) -> (set: Option<Self>)
        ensures
            match set {
                Some(set) => is_key_set(text@) && set@ == text@,
                None => !is_key_set(text@),
            },
    {
        if reads_key_set(text.as_str()) {
            Some(PublicKeySet { encoding: text })
        } else {
            None
        }
    }

    /// The key set's encoding.
    pub fn as_json(&self) -> (text: &str)
        ensures
            text@ == self@,
    {
        self.encoding.as_str()
    }

    /// The public key share of the peer at `index`, as bytes.
    pub fn public_key_share(&self, index: usize) -> (share: Vec<u8>)
        ensures
            share@ == key_set_share(self@, index as int),
    {
        proof {
            use_type_invariant(self);
        }
        set_public_share(self.encoding.as_str(), index)
    }
}

/// One peer's keys of one kind: its secret share, and the key set that it shares with all.
pub struct ThresholdKeys {
    pub secret: SecretKeyShare,
    pub set: PublicKeySet,
}

/// What a `ThresholdKeys` holds.
#[verifier::ext_equal]
pub struct ThresholdKeysView {
    pub secret: Seq<char>,
    pub set: Seq<char>,
}

impl View for ThresholdKeys {
    type V = ThresholdKeysView;

    open spec fn view(&self) -> ThresholdKeysView {
        ThresholdKeysView { secret: self.secret@, set: self.set@ }
    }
}

impl Clone for ThresholdKeys {
    fn clone(&self) -> (copy: Self)
        ensures
            copy@ == self@,
    {
        ThresholdKeys { secret: self.secret.clone(), set: self.set.clone() }
    }
}

/// Whether `keys` gives each of `peers` and nobody else its share of one threshold key: all
/// have the same key set, and the secret share of the peer at position `i`, counting the peers
/// in ascending order, is share `i` of that set. As many of them as may misbehave cannot use the
/// key; one more can.
pub open spec fn one_key_for(peers: Set<PeerId>, keys: Map<PeerId, ThresholdKeysView>) -> bool {
    &&& keys.dom() == peers
    &&& forall|i: int|
        0 <= i < ids_of(peers).len() ==> {
            let id = #[trigger] ids_of(peers)[i];
            &&& keys[id].set == keys[ids_of(peers)[0]].set
            &&& share_matches(keys[id].secret, keys[id].set, i)
            &&& key_set_threshold(keys[id].set) == max_evil_spec(peers.len() as int)
        }
}

/// Deals the shares of a new threshold key to `peers`.
pub fn deal_keys(peers: &[PeerId], rng: &mut rand::rngs::StdRng) -> (keys: BTreeMap<
    PeerId,
    ThresholdKeys,
>)
    requires
        peers@.len() > 0,
    ensures
        one_key_for(peers@.to_set(), view_map(keys@)),
{
    let ids = slice_to_vec(peers);
    let mut keys: BTreeMap<PeerId, ThresholdKeys> = BTreeMap::new();
    let ghost set = peers@.to_set();
    let ghost sorted = ids_of(set);
    let dealt = match generate_map(&ids, rng) {
        Ok(dealt) => dealt,
        Err(_) => {
            return keys;
        },
    };
    proof {
        lemma_ids_of(set);
    }
    for i in 0..dealt.len()
        invariant
            sorted == ids_of(set),
            sorted.no_duplicates(),
            is_deal(set, dealt@),
            forall|j: int|
                0 <= j < dealt@.len() ==> key_set_threshold((#[trigger] dealt@[j]).2@)
                    == max_evil_spec(set.len() as int),
            keys@.dom() == sorted.take(i as int).to_set(),
            forall|j: int|
                0 <= j < i ==> (#[trigger] keys@[sorted[j]]@) == (ThresholdKeysView {
                    secret: dealt@[j].1@,
                    set: dealt@[j].2@,
                }),
    {
        let id: PeerId = dealt[i].0;
        proof {
            assert(dealt@[i as int].0 == sorted[i as int]);
            assert(sorted.take(i + 1) =~= sorted.take(i as int).push(id));
            sorted.take(i as int).lemma_push_to_set_commute(id);
        }
        let secret = SecretKeyShare { encoding: dealt[i].1.clone() };
        let public = PublicKeySet { encoding: dealt[i].2.clone() };
        keys.insert(id, ThresholdKeys { secret, set: public });
    }
    proof {
        assert(sorted.take(sorted.len() as int) =~= sorted);
        let views = view_map(keys@);
        assert(views.dom() =~= set);
        assert forall|i: int| 0 <= i < sorted.len() implies {
            let id = #[trigger] sorted[i];
            &&& views[id].set == views[sorted[0]].set
            &&& share_matches(views[id].secret, views[id].set, i)
            &&& key_set_threshold(views[id].set) == max_evil_spec(set.len() as int)
        } by {
            assert(set.contains(sorted[i]));
            assert(set.contains(sorted[0]));
            assert(keys@[sorted[i]]@.set == dealt@[i].2@);
            assert(keys@[sorted[0]]@.set == dealt@[0].2@);
        }
    }
    keys
}

} // verus!
