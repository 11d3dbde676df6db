//! Which peers the interface should hold.

use crate::address::{
    decode_key, decoded_key, parse_mask, parsed_mask, reading, AddressMask, MaskModel, PublicKey,
};
use crate::error::{Error, ErrorModel};
use crate::payload::{either, PeerModel, PeerPayload, Snapshot, UserModel, UserPayload};
use crate::peer_laws::desired_peers_have_distinct_keys;
use crate::text::owned;
use vstd::prelude::*;

verus! {

/// A peer that the interface should hold.
#[derive(Debug)]
pub struct DesiredPeer {
    pub peer_id: Option<u64>,
    pub user_id: u64,
    pub device_id: String,
    pub public_key: PublicKey,
    pub public_key_string: String,
    pub allowed_ips: Vec<AddressMask>,
    pub speed_limit_mbps: Option<u64>,
}

/// The model of a `DesiredPeer`.
pub struct DesiredModel {
    pub peer_id: Option<u64>,
    pub user_id: u64,
    pub device_id: Seq<char>,
    pub public_key: Seq<u8>,
    pub public_key_string: Seq<char>,
    pub allowed_ips: Seq<MaskModel>,
    pub speed_limit_mbps: Option<u64>,
}

impl DeepView for DesiredPeer {
    type V = DesiredModel;

    open spec fn deep_view(&self) -> DesiredModel {
        DesiredModel {
            peer_id: self.peer_id,
            user_id: self.user_id,
            device_id: self.device_id@,
            public_key: self.public_key.deep_view(),
            public_key_string: self.public_key_string@,
            allowed_ips: self.allowed_ips.deep_view(),
            speed_limit_mbps: self.speed_limit_mbps,
        }
    }
}

/// The model of a result: that of the value or that of the error.
pub open spec fn outcome<T: DeepView>(r: Result<T, Error>) -> Result<T::V, ErrorModel> {
    match r {
        Ok(value) => Ok(value.deep_view()),
        Err(e) => Err(e.deep_view()),
    }
}

/// The texts that name a peer's addresses: the allowed addresses, or where
/// there are none its IPv4 address, if any, and then its IPv6 address, if any.
pub open spec fn address_list(peer: PeerModel) -> Seq<Seq<char>> {
    if peer.allowed_ips.len() > 0 {
        peer.allowed_ips
    } else {
        let v4: Seq<Seq<char>> = match either(peer.ipv4, peer.ip) {
            Some(text) => seq![text],
            None => seq![],
        };
        let v6: Seq<Seq<char>> = match peer.ipv6 {
            Some(text) => seq![text],
            None => seq![],
        };
        v4 + v6
    }
}

/// The texts that name a peer's addresses.
pub fn address_texts(peer: &PeerPayload) -> (r: Vec<String>)
    ensures
        r.deep_view() == address_list(peer.deep_view()),
{
    let mut values = peer.allowed_ips.clone();
    proof {
        assert(values.deep_view() =~= peer.allowed_ips.deep_view());
    }
    if values.is_empty() {
        match (&peer.ipv4, &peer.ip) {
            (Some(text), _) => values.push(text.clone()),
            (None, Some(text)) => values.push(text.clone()),
            (None, None) => {},
        }
        if let Some(text) = &peer.ipv6 {
            values.push(text.clone());
        }
    }
    proof {
        assert(values.deep_view() =~= address_list(peer.deep_view()));
    }
    values
}

/// What was read from each of a list of texts.
pub open spec fn readings(parsed: Seq<Result<AddressMask, String>>) -> Seq<
    Result<MaskModel, Seq<char>>,
> {
    Seq::new(parsed.len(), |i: int| reading(parsed[i]))
}

/// The masks that were read from `texts`, or the error that names the first
/// text from which none was read, and why.
pub open spec fn collected(
    texts: Seq<Seq<char>>,
    parsed: Seq<Result<MaskModel, Seq<char>>>,
) -> Result<Seq<MaskModel>, ErrorModel>
    decreases parsed.len(),
{
    if parsed.len() == 0 {
        Ok(seq![])
    } else {
        match collected(texts, parsed.drop_last()) {
            Err(e) => Err(e),
            Ok(masks) => match parsed.last() {
                Ok(mask) => Ok(masks.push(mask)),
                Err(cause) => Err(
                    ErrorModel::InvalidAllowedIp { value: texts[parsed.len() - 1], cause },
                ),
            },
        }
    }
}

proof fn lemma_collected_error(
    texts: Seq<Seq<char>>,
    parsed: Seq<Result<MaskModel, Seq<char>>>,
    k: int,
)
    requires
        0 <= k <= parsed.len(),
        collected(texts, parsed.take(k)) is Err,
    ensures
        collected(texts, parsed) == collected(texts, parsed.take(k)),
    decreases parsed.len(),
{
    if k < parsed.len() {
        assert(parsed.drop_last().take(k) =~= parsed.take(k));
        lemma_collected_error(texts, parsed.drop_last(), k);
    } else {
        assert(parsed.take(k) =~= parsed);
    }
}

/// Collects what was read from each of `texts`, or names the first of them from
/// which nothing was read, and why.
pub fn collect_masks(texts: &Vec<String>, parsed: &Vec<Result<AddressMask, String>>) -> (r: Result<
    Vec<AddressMask>,
    Error,
>)
    requires
        parsed@.len() == texts@.len(),
    ensures
        outcome(r) == collected(texts.deep_view(), readings(parsed@)),
{
    let mut masks: Vec<AddressMask> = Vec::new();
    let mut i: usize = 0;
    proof {
        assert(masks.deep_view() =~= seq![]);
    }
    while i < parsed.len()
        invariant
            i <= parsed@.len(),
            parsed@.len() == texts@.len(),
            collected(texts.deep_view(), readings(parsed@).take(i as int)) == Ok::<
                Seq<MaskModel>,
                ErrorModel,
            >(masks.deep_view()),
        decreases parsed@.len() - i,
    {
        let ghost all = readings(parsed@);
        let ghost before = masks.deep_view();
        proof {
            assert(all.take(i + 1).drop_last() =~= all.take(i as int));
            assert(all.take(i + 1).last() == all[i as int]);
        }
        match &parsed[i] {
            Ok(mask) => {
                masks.push(mask.clone());
                proof {
                    assert(masks.deep_view() =~= before.push(mask.deep_view()));
                }
            },
            Err(cause) => {
                let e = Error::InvalidAllowedIp { value: texts[i].clone(), cause: cause.clone() };
                proof {
                    lemma_collected_error(texts.deep_view(), all, i + 1);
                }
                return Err(e);
            },
        }
        i += 1;
    }
    proof {
        assert(readings(parsed@).take(i as int) =~= readings(parsed@));
    }
    Ok(masks)
}

/// What is read from each of `texts`.
pub open spec fn all_parsed(texts: Seq<Seq<char>>) -> Seq<Result<MaskModel, Seq<char>>> {
    Seq::new(texts.len(), |i: int| parsed_mask(texts[i]))
}

/// The addresses of a peer, or the error that names the first text that is no
/// address.
pub open spec fn peer_masks(peer: PeerModel) -> Result<Seq<MaskModel>, ErrorModel> {
    collected(address_list(peer), all_parsed(address_list(peer)))
}

/// The addresses whose traffic belongs to a peer.
pub fn peer_allowed_ips(peer: &PeerPayload) -> (r: Result<Vec<AddressMask>, Error>)
    ensures
        outcome(r) == peer_masks(peer.deep_view()),
{
    let texts = address_texts(peer);
    let mut parsed: Vec<Result<AddressMask, String>> = Vec::new();
    let mut i: usize = 0;
    while i < texts.len()
        invariant
            i <= texts@.len(),
            readings(parsed@) == all_parsed(texts.deep_view()).take(i as int),
        decreases texts@.len() - i,
    {
        let ghost before = readings(parsed@);
        parsed.push(parse_mask(texts[i].as_str()));
        proof {
            assert(readings(parsed@) =~= before.push(parsed_mask(texts@[i as int]@)));
            assert(readings(parsed@) =~= all_parsed(texts.deep_view()).take(i + 1));
        }
        i += 1;
    }
    proof {
        assert(readings(parsed@) =~= all_parsed(texts.deep_view()));
    }
    collect_masks(&texts, &parsed)
}

/// The index of the first peer with the given key.
pub open spec fn position(peers: Seq<DesiredModel>, key: Seq<u8>) -> Option<int>
    decreases peers.len(),
{
    if peers.len() == 0 {
        None
    } else {
        match position(peers.drop_last(), key) {
            Some(i) => Some(i),
            None => if peers.last().public_key == key {
                Some(peers.len() - 1)
            } else {
                None
            },
        }
    }
}

/// `position` finds an index exactly if some peer has the key, and then the
/// least one.
pub proof fn lemma_position(peers: Seq<DesiredModel>, key: Seq<u8>)
    ensures
        match position(peers, key) {
            Some(i) => 0 <= i < peers.len() && peers[i].public_key == key && (forall|j: int|
                0 <= j < i ==> peers[j].public_key != key),
            None => forall|j: int| 0 <= j < peers.len() ==> peers[j].public_key != key,
        },
    decreases peers.len(),
{
    if peers.len() > 0 {
        lemma_position(peers.drop_last(), key);
        assert forall|j: int| 0 <= j < peers.len() - 1 implies (#[trigger] peers[j]).public_key
            == peers.drop_last()[j].public_key by {}
    }
}

/// Finds the first peer with the given key.
pub fn find_peer(peers: &Vec<DesiredPeer>, key: &PublicKey) -> (r: Option<usize>)
    ensures
        match r {
            Some(i) => position(peers.deep_view(), key.deep_view()) == Some(i as int) && i
                < peers@.len(),
            None => position(peers.deep_view(), key.deep_view()) is None,
        },
{
    let mut i: usize = 0;
    while i < peers.len()
        invariant
            i <= peers@.len(),
            forall|j: int|
                0 <= j < i ==> peers.deep_view()[j].public_key != key.deep_view(),
        decreases peers@.len() - i,
    {
        if peers[i].public_key.same(key) {
            proof {
                lemma_position(peers.deep_view(), key.deep_view());
                assert(peers.deep_view()[i as int].public_key == key.deep_view());
            }
            return Some(i);
        }
        i += 1;
    }
    proof {
        lemma_position(peers.deep_view(), key.deep_view());
    }
    None
}

/// Whether no two peers share a key.
pub open spec fn distinct_keys(peers: Seq<DesiredModel>) -> bool {
    forall|i: int, j: int|
        0 <= i < j < peers.len() ==> (#[trigger] peers[i]).public_key != (
        #[trigger] peers[j]).public_key
}

/// Whether a peer is in use: not switched off and not revoked.
pub open spec fn in_use(peer: PeerModel) -> bool {
    peer.enabled != Some(0i64) && peer.revoked_at is None
}

/// The desired peer that a user's peer becomes under the key and the addresses
/// that were read for it. The peer's own user and speed limit come before the
/// user's, and a peer without a device is of the device `default`.
pub open spec fn desired(
    user: UserModel,
    peer: PeerModel,
    key: Seq<u8>,
    masks: Seq<MaskModel>,
) -> DesiredModel {
    DesiredModel {
        peer_id: peer.peer_id,
        user_id: match peer.user_id {
            Some(id) => id,
            None => user.id,
        },
        device_id: match peer.device_id {
            Some(id) => id,
            None => "default"@,
        },
        public_key: key,
        public_key_string: peer.public_key,
        allowed_ips: masks,
        speed_limit_mbps: either(peer.speed_limit, user.speed_limit),
    }
}

/// The desired peers once one more peer that is in use is considered, where
/// `key` and `masks` are what was read from its texts. An unreadable key or
/// address is refused, a peer without addresses is passed over, and a key that
/// is already there is refused.
pub open spec fn placed(
    peers: Seq<DesiredModel>,
    user: UserModel,
    peer: PeerModel,
    key: Result<Seq<u8>, Seq<char>>,
    masks: Result<Seq<MaskModel>, ErrorModel>,
) -> Result<Seq<DesiredModel>, ErrorModel> {
    match key {
        Err(cause) => Err(ErrorModel::InvalidPublicKey { user_id: user.id, cause }),
        Ok(key) => match masks {
            Err(e) => Err(e),
            Ok(masks) => if masks.len() == 0 {
                Ok(peers)
            } else {
                match position(peers, key) {
                    Some(i) => Err(
                        ErrorModel::DuplicatePublicKey {
                            public_key: peer.public_key,
                            user_id: user.id,
                            existing_user_id: peers[i].user_id,
                        },
                    ),
                    None => Ok(peers.push(desired(user, peer, key, masks))),
                }
            },
        },
    }
}

/// Considers one more peer that is in use, where `key` and `masks` are what was
/// read from its texts.
pub fn place_peer(
    peers: &mut Vec<DesiredPeer>,
    user: &UserPayload,
    peer: &PeerPayload,
    key: Result<PublicKey, String>,
    masks: Result<Vec<AddressMask>, Error>,
) -> (r: Result<(), Error>)
    ensures
        match placed(
            old(peers).deep_view(),
            user.deep_view(),
            peer.deep_view(),
            reading(key),
            outcome(masks),
        ) {
            Ok(after) => r is Ok && final(peers).deep_view() == after,
            Err(e) => outcome(r) == Err::<(), ErrorModel>(e) && final(peers)@ == old(peers)@,
        },
{
    let public_key = match key {
        Ok(key) => key,
        Err(cause) => return Err(Error::InvalidPublicKey { user_id: user.id, cause }),
    };
    let allowed_ips = match masks {
        Ok(masks) => masks,
        Err(e) => return Err(e),
    };
    if allowed_ips.is_empty() {
        return Ok(());
    }
    if let Some(i) = find_peer(peers, &public_key) {
        return Err(
            Error::DuplicatePublicKey {
                public_key: peer.public_key.clone(),
                user_id: user.id,
                existing_user_id: peers[i].user_id,
            },
        );
    }
    let user_id = match peer.user_id {
        Some(id) => id,
        None => user.id,
    };
    let device_id = match &peer.device_id {
        Some(id) => id.clone(),
        None => owned("default"),
    };
    let speed_limit_mbps = match peer.speed_limit {
        Some(limit) => Some(limit),
        None => user.speed_limit,
    };
    let ghost before = peers.deep_view();
    peers.push(
        DesiredPeer {
            peer_id: peer.peer_id,
            user_id,
            device_id,
            public_key,
            public_key_string: peer.public_key.clone(),
            allowed_ips,
            speed_limit_mbps,
        },
    );
    proof {
        assert(peers.deep_view() =~= before.push(
            desired(
                user.deep_view(),
                peer.deep_view(),
                public_key.deep_view(),
                allowed_ips.deep_view(),
            ),
        ));
    }
    Ok(())
}

/// The desired peers once the peers of one user are considered in turn.
pub open spec fn with_peers(
    so_far: Result<Seq<DesiredModel>, ErrorModel>,
    user: UserModel,
    peers: Seq<PeerModel>,
) -> Result<Seq<DesiredModel>, ErrorModel>
    decreases peers.len(),
{
    if peers.len() == 0 {
        so_far
    } else {
        match with_peers(so_far, user, peers.drop_last()) {
            Err(e) => Err(e),
            Ok(list) => {
                let peer = peers.last();
                if in_use(peer) {
                    placed(list, user, peer, decoded_key(peer.public_key), peer_masks(peer))
                } else {
                    Ok(list)
                }
            },
        }
    }
}

/// The desired peers of all users, or the first error met in going through them.
pub open spec fn desired_list(users: Seq<UserModel>) -> Result<Seq<DesiredModel>, ErrorModel>
    decreases users.len(),
{
    if users.len() == 0 {
        Ok(seq![])
    } else {
        with_peers(desired_list(users.drop_last()), users.last(), users.last().peers())
    }
}

proof fn lemma_peers_error(
    so_far: Result<Seq<DesiredModel>, ErrorModel>,
    user: UserModel,
    peers: Seq<PeerModel>,
    k: int,
)
    requires
        0 <= k <= peers.len(),
        with_peers(so_far, user, peers.take(k)) is Err,
    ensures
        with_peers(so_far, user, peers) == with_peers(so_far, user, peers.take(k)),
    decreases peers.len(),
{
    if k < peers.len() {
        assert(peers.drop_last().take(k) =~= peers.take(k));
        lemma_peers_error(so_far, user, peers.drop_last(), k);
    } else {
        assert(peers.take(k) =~= peers);
    }
}

proof fn lemma_users_error(users: Seq<UserModel>, k: int)
    requires
        0 <= k <= users.len(),
        desired_list(users.take(k)) is Err,
    ensures
        desired_list(users) == desired_list(users.take(k)),
    decreases users.len(),
{
    if k < users.len() {
        assert(users.drop_last().take(k) =~= users.take(k));
        lemma_users_error(users.drop_last(), k);
        let all = users.last().peers();
        assert(all.take(0) =~= Seq::<PeerModel>::empty());
        lemma_peers_error(desired_list(users.drop_last()), users.last(), all, 0);
    } else {
        assert(users.take(k) =~= users);
    }
}

/// Whether a peer is passed over for want of addresses: it is in use and its key
/// can be read, but nothing names an address of it.
pub open spec fn passed_over(peer: PeerModel) -> bool {
    in_use(peer) && decoded_key(peer.public_key) is Ok && address_list(peer).len() == 0
}

/// Those of a user's peers that are passed over before one is refused, each by its
/// user and its key.
pub open spec fn skipped_of(
    so_far: Result<Seq<DesiredModel>, ErrorModel>,
    user: UserModel,
    peers: Seq<PeerModel>,
) -> Seq<(u64, Seq<char>)>
    decreases peers.len(),
{
    if peers.len() == 0 {
        seq![]
    } else {
        let head = peers.drop_last();
        let rest = skipped_of(so_far, user, head);
        if with_peers(so_far, user, head) is Ok && passed_over(peers.last()) {
            rest.push((user.id, peers.last().public_key))
        } else {
            rest
        }
    }
}

/// The peers that are passed over before one is refused, in the order of the
/// users.
pub open spec fn skipped(users: Seq<UserModel>) -> Seq<(u64, Seq<char>)>
    decreases users.len(),
{
    if users.len() == 0 {
        seq![]
    } else {
        let head = users.drop_last();
        skipped(head) + skipped_of(desired_list(head), users.last(), users.last().peers())
    }
}

proof fn lemma_skipped_peers_error(
    so_far: Result<Seq<DesiredModel>, ErrorModel>,
    user: UserModel,
    peers: Seq<PeerModel>,
    k: int,
)
    requires
        0 <= k <= peers.len(),
        with_peers(so_far, user, peers.take(k)) is Err,
    ensures
        skipped_of(so_far, user, peers) == skipped_of(so_far, user, peers.take(k)),
    decreases peers.len(),
{
    if k < peers.len() {
        assert(peers.drop_last().take(k) =~= peers.take(k));
        lemma_peers_error(so_far, user, peers.drop_last(), k);
        lemma_skipped_peers_error(so_far, user, peers.drop_last(), k);
    } else {
        assert(peers.take(k) =~= peers);
    }
}

proof fn lemma_skipped_users_error(users: Seq<UserModel>, k: int)
    requires
        0 <= k <= users.len(),
        desired_list(users.take(k)) is Err,
    ensures
        skipped(users) == skipped(users.take(k)),
    decreases users.len(),
{
    if k < users.len() {
        let head = users.drop_last();
        assert(head.take(k) =~= users.take(k));
        lemma_users_error(head, k);
        lemma_skipped_users_error(head, k);
        let all = users.last().peers();
        assert(all.take(0) =~= Seq::<PeerModel>::empty());
        lemma_skipped_peers_error(desired_list(head), users.last(), all, 0);
        assert(skipped(head) + Seq::<(u64, Seq<char>)>::empty() =~= skipped(head));
    } else {
        assert(users.take(k) =~= users);
    }
}

/// A peer without addresses has no masks to read.
proof fn lemma_no_masks(peer: PeerModel)
    ensures
        address_list(peer).len() == 0 <==> peer_masks(peer) == Ok::<Seq<MaskModel>, ErrorModel>(
            seq![],
        ),
{
    lemma_collected_len(address_list(peer), all_parsed(address_list(peer)));
}

proof fn lemma_collected_len(texts: Seq<Seq<char>>, parsed: Seq<Result<MaskModel, Seq<char>>>)
    ensures
        collected(texts, parsed) matches Ok(masks) ==> masks.len() == parsed.len(),
    decreases parsed.len(),
{
    if parsed.len() > 0 {
        lemma_collected_len(texts, parsed.drop_last());
    }
}

/// Considers the peers of one user in turn, and notes those that are passed over.
fn place_user(
    peers: &mut Vec<DesiredPeer>,
    without: &mut Vec<(u64, String)>,
    user: &UserPayload,
) -> (r: Result<(), Error>)
    ensures
        match with_peers(
            Ok(old(peers).deep_view()),
            user.deep_view(),
            user.deep_view().peers(),
        ) {
            Ok(after) => r is Ok && final(peers).deep_view() == after,
            Err(e) => outcome(r) == Err::<(), ErrorModel>(e),
        },
        final(without).deep_view() == old(without).deep_view() + skipped_of(
            Ok(old(peers).deep_view()),
            user.deep_view(),
            user.deep_view().peers(),
        ),
{
    let own = user.peers();
    let ghost start: Result<Seq<DesiredModel>, ErrorModel> = Ok(peers.deep_view());
    let ghost all = own.deep_view();
    let ghost noted = without.deep_view();
    let mut i: usize = 0;
    proof {
        assert(all.take(0) =~= Seq::<PeerModel>::empty());
        assert(noted + Seq::<(u64, Seq<char>)>::empty() =~= noted);
    }
    while i < own.len()
        invariant
            i <= own@.len(),
            noted == old(without).deep_view(),
            without.deep_view() == noted + skipped_of(start, user.deep_view(), all.take(i as int)),
            all == own.deep_view(),
            all == user.deep_view().peers(),
            start == Ok::<Seq<DesiredModel>, ErrorModel>(old(peers).deep_view()),
            with_peers(start, user.deep_view(), all.take(i as int)) == Ok::<
                Seq<DesiredModel>,
                ErrorModel,
            >(peers.deep_view()),
        decreases own@.len() - i,
    {
        proof {
            assert(all.take(i + 1).drop_last() =~= all.take(i as int));
            assert(all.take(i + 1).last() == own@[i as int].deep_view());
        }
        let peer = &own[i];
        let switched_off = match peer.enabled {
            Some(flag) => flag == 0,
            None => false,
        };
        if !switched_off && peer.revoked_at.is_none() {
            let key = decode_key(peer.public_key.as_str());
            let masks = peer_allowed_ips(peer);
            let unaddressed = key.is_ok() && match &masks {
                Ok(masks) => masks.is_empty(),
                Err(_) => false,
            };
            proof {
                lemma_no_masks(peer.deep_view());
                if let Ok(masks) = &masks {
                    assert(masks.deep_view().len() == masks@.len());
                    assert(masks@.len() == 0 ==> masks.deep_view() =~= seq![]);
                }
                assert(unaddressed == passed_over(peer.deep_view()));
            }
            let ghost before = without.deep_view();
            if unaddressed {
                without.push((user.id, peer.public_key.clone()));
                proof {
                    assert(without.deep_view() =~= before.push((user.id, peer.public_key@)));
                }
            }
            proof {
                assert(without.deep_view() =~= noted + skipped_of(
                    start,
                    user.deep_view(),
                    all.take(i + 1),
                ));
            }
            if let Err(e) = place_peer(peers, user, peer, key, masks) {
                proof {
                    lemma_peers_error(start, user.deep_view(), all, i + 1);
                    lemma_skipped_peers_error(start, user.deep_view(), all, i + 1);
                }
                return Err(e);
            }
        }
        i += 1;
    }
    proof {
        assert(all.take(i as int) =~= all);
    }
    Ok(())
}

/// Goes through the users of a snapshot in turn: gives the peers that it asks for
/// and those that are passed over.
fn go_through(snapshot: &Snapshot) -> (r: (Result<Vec<DesiredPeer>, Error>, Vec<(u64, String)>))
    ensures
        outcome(r.0) == desired_list(snapshot.users.deep_view()),
        r.1.deep_view() == skipped(snapshot.users.deep_view()),
{
    let mut peers: Vec<DesiredPeer> = Vec::new();
    let mut without: Vec<(u64, String)> = Vec::new();
    let ghost users = snapshot.users.deep_view();
    let mut i: usize = 0;
    proof {
        assert(peers.deep_view() =~= seq![]);
        assert(without.deep_view() =~= seq![]);
        assert(users.take(0) =~= Seq::<UserModel>::empty());
    }
    while i < snapshot.users.len()
        invariant
            i <= snapshot.users@.len(),
            users == snapshot.users.deep_view(),
            desired_list(users.take(i as int)) == Ok::<Seq<DesiredModel>, ErrorModel>(
                peers.deep_view(),
            ),
            without.deep_view() == skipped(users.take(i as int)),
        decreases snapshot.users@.len() - i,
    {
        proof {
            assert(users.take(i + 1).drop_last() =~= users.take(i as int));
            assert(users.take(i + 1).last() == snapshot.users@[i as int].deep_view());
        }
        if let Err(e) = place_user(&mut peers, &mut without, &snapshot.users[i]) {
            proof {
                lemma_users_error(users, i + 1);
                lemma_skipped_users_error(users, i + 1);
            }
            return (Err(e), without);
        }
        i += 1;
    }
    proof {
        assert(users.take(i as int) =~= users);
    }
    (Ok(peers), without)
}

/// The peers that a snapshot asks for, in the order in which it lists them and no
/// key twice.
pub fn desired_peers(snapshot: &Snapshot) -> (r: Result<Vec<DesiredPeer>, Error>)
    ensures
        outcome(r) == desired_list(snapshot.users.deep_view()),
        r matches Ok(peers) ==> distinct_keys(peers.deep_view()),
{
    let (r, _) = go_through(snapshot);
    proof {
        if r is Ok {
            desired_peers_have_distinct_keys(snapshot.users.deep_view());
        }
    }
    r
}

/// The peers of a snapshot that are passed over for want of addresses, each by its
/// user and its key, in the order in which the snapshot lists them. Where the
/// snapshot is refused, they are those before the peer that it is refused for.
pub fn peers_without_addresses(snapshot: &Snapshot) -> (r: Vec<(u64, String)>)
    ensures
        r.deep_view() == skipped(snapshot.users.deep_view()),
{
    let (_, without) = go_through(snapshot);
    without
}

} // verus!
