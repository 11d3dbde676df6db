//! What holds of the desired peers of a snapshot and of the changes that bring
//! an interface in line with them.

use crate::address::{decoded_key, parsed_mask, MaskModel};
use crate::error::ErrorModel;
use crate::payload::{PeerModel, UserModel};
use crate::peers::{
    address_list, all_parsed, collected, desired, desired_list, distinct_keys, in_use,
    lemma_position, passed_over, peer_masks, placed, position, skipped, skipped_of, with_peers,
    DesiredModel,
};
use crate::wireguard::{setup_of, setups_of, stale_keys, SetupModel};
use vstd::prelude::*;

verus! {

/// Whether a peer's key and all its addresses can be read.
pub open spec fn readable_peer(peer: PeerModel) -> bool {
    decoded_key(peer.public_key) is Ok && peer_masks(peer) is Ok
}

/// Whether every peer that is in use can be read.
pub open spec fn readable_peers(peers: Seq<PeerModel>) -> bool {
    forall|j: int| 0 <= j < peers.len() && in_use(#[trigger] peers[j]) ==> readable_peer(peers[j])
}

/// Whether every peer of every user that is in use can be read.
pub open spec fn readable(users: Seq<UserModel>) -> bool {
    forall|i: int| 0 <= i < users.len() ==> readable_peers((#[trigger] users[i]).peers())
}

/// Whether a peer is to be on the interface: in use, readable, and with at least
/// one address.
pub open spec fn wanted_peer(peer: PeerModel) -> bool {
    in_use(peer) && readable_peer(peer) && peer_masks(peer)->Ok_0.len() > 0
}

/// The desired peer that a user's peer becomes.
pub open spec fn as_desired(user: UserModel, peer: PeerModel) -> DesiredModel {
    desired(user, peer, decoded_key(peer.public_key)->Ok_0, peer_masks(peer)->Ok_0)
}

/// Those of a user's peers that are to be on the interface, in their order.
pub open spec fn wanted_of(user: UserModel, peers: Seq<PeerModel>) -> Seq<DesiredModel>
    decreases peers.len(),
{
    if peers.len() == 0 {
        seq![]
    } else {
        let rest = wanted_of(user, peers.drop_last());
        if wanted_peer(peers.last()) {
            rest.push(as_desired(user, peers.last()))
        } else {
            rest
        }
    }
}

/// All peers that are to be on the interface, in their order.
pub open spec fn wanted(users: Seq<UserModel>) -> Seq<DesiredModel>
    decreases users.len(),
{
    if users.len() == 0 {
        seq![]
    } else {
        wanted(users.drop_last()) + wanted_of(users.last(), users.last().peers())
    }
}

proof fn lemma_readable_prefix(peers: Seq<PeerModel>)
    requires
        peers.len() > 0,
    ensures
        readable_peers(peers) <==> readable_peers(peers.drop_last()) && (in_use(peers.last())
            ==> readable_peer(peers.last())),
{
    if readable_peers(peers) {
        assert forall|j: int|
            0 <= j < peers.drop_last().len() && in_use(
                #[trigger] peers.drop_last()[j],
            ) implies readable_peer(peers.drop_last()[j]) by {
            assert(peers.drop_last()[j] == peers[j]);
        }
        assert(peers.last() == peers[peers.len() - 1]);
    }
    if readable_peers(peers.drop_last()) && (in_use(peers.last()) ==> readable_peer(peers.last())) {
        assert forall|j: int|
            0 <= j < peers.len() && in_use(#[trigger] peers[j]) implies readable_peer(peers[j]) by {
            if j < peers.len() - 1 {
                assert(peers.drop_last()[j] == peers[j]);
            }
        }
    }
}

proof fn lemma_distinct_prefix(peers: Seq<DesiredModel>, more: Seq<DesiredModel>)
    requires
        distinct_keys(peers + more),
    ensures
        distinct_keys(peers),
{
    assert forall|i: int, j: int| 0 <= i < j < peers.len() implies (#[trigger] peers[i]).public_key
        != (#[trigger] peers[j]).public_key by {
        assert((peers + more)[i] == peers[i]);
        assert((peers + more)[j] == peers[j]);
    }
}

proof fn lemma_distinct_push(peers: Seq<DesiredModel>, peer: DesiredModel)
    requires
        distinct_keys(peers),
    ensures
        distinct_keys(peers.push(peer)) <==> position(peers, peer.public_key) is None,
{
    lemma_position(peers, peer.public_key);
    let all = peers.push(peer);
    match position(peers, peer.public_key) {
        Some(i) => {
            assert(all[i].public_key == all[peers.len() as int].public_key);
        },
        None => {
            assert forall|i: int, j: int|
                0 <= i < j < all.len() implies (#[trigger] all[i]).public_key != (
            #[trigger] all[j]).public_key by {
                assert(all[i] == peers[i]);
                if j < peers.len() {
                    assert(all[j] == peers[j]);
                }
            }
        },
    }
}

proof fn lemma_with_peers_exact(known: Seq<DesiredModel>, user: UserModel, peers: Seq<PeerModel>)
    requires
        distinct_keys(known),
    ensures
        with_peers(Ok(known), user, peers) is Ok <==> readable_peers(peers) && distinct_keys(
            known + wanted_of(user, peers),
        ),
        with_peers(Ok(known), user, peers) is Ok ==> with_peers(Ok(known), user, peers)->Ok_0
            == known + wanted_of(user, peers),
    decreases peers.len(),
{
    if peers.len() == 0 {
        assert(known + wanted_of(user, peers) =~= known);
    } else {
        let head = peers.drop_last();
        let peer = peers.last();
        let so_far = known + wanted_of(user, head);
        lemma_with_peers_exact(known, user, head);
        lemma_readable_prefix(peers);
        if wanted_peer(peer) {
            let one = as_desired(user, peer);
            assert(known + wanted_of(user, peers) =~= so_far.push(one));
            assert(so_far.push(one) =~= so_far + seq![one]);
            if distinct_keys(so_far.push(one)) {
                lemma_distinct_prefix(so_far, seq![one]);
            }
            if distinct_keys(so_far) {
                lemma_distinct_push(so_far, one);
            }
        }
    }
}

proof fn lemma_error_stays(e: ErrorModel, user: UserModel, peers: Seq<PeerModel>)
    ensures
        with_peers(Err(e), user, peers) == Err::<Seq<DesiredModel>, ErrorModel>(e),
    decreases peers.len(),
{
    if peers.len() > 0 {
        lemma_error_stays(e, user, peers.drop_last());
    }
}

/// A snapshot is accepted exactly if every peer that is in use can be read and
/// no two of those that have addresses share a key; the desired peers are then
/// just those that have addresses, in the order of the snapshot.
pub proof fn desired_peers_are_the_wanted_ones(users: Seq<UserModel>)
    ensures
        desired_list(users) is Ok <==> readable(users) && distinct_keys(wanted(users)),
        desired_list(users) is Ok ==> desired_list(users)->Ok_0 == wanted(users),
    decreases users.len(),
{
    if users.len() > 0 {
        let head = users.drop_last();
        let user = users.last();
        desired_peers_are_the_wanted_ones(head);
        if readable(users) {
            assert forall|i: int| 0 <= i < head.len() implies readable_peers(
                (#[trigger] head[i]).peers(),
            ) by {
                assert(head[i] == users[i]);
            }
            assert(user == users[users.len() - 1]);
        }
        if readable(head) && readable_peers(user.peers()) {
            assert forall|i: int| 0 <= i < users.len() implies readable_peers(
                (#[trigger] users[i]).peers(),
            ) by {
                if i < users.len() - 1 {
                    assert(head[i] == users[i]);
                }
            }
        }
        match desired_list(head) {
            Ok(known) => {
                lemma_with_peers_exact(known, user, user.peers());
            },
            Err(e) => {
                lemma_error_stays(e, user, user.peers());
                if distinct_keys(wanted(users)) {
                    lemma_distinct_prefix(wanted(head), wanted_of(user, user.peers()));
                }
            },
        }
    }
}

/// The desired peers of a snapshot that is accepted have pairwise different
/// keys.
pub proof fn desired_peers_have_distinct_keys(users: Seq<UserModel>)
    requires
        desired_list(users) is Ok,
    ensures
        distinct_keys(desired_list(users)->Ok_0),
{
    desired_peers_are_the_wanted_ones(users);
}

/// Whether an error is borne out by the peers of a user: it names the user and
/// there is such a peer. `known` are the peers met before or with it.
pub open spec fn borne_out(
    e: ErrorModel,
    user: UserModel,
    peer: PeerModel,
    known: Seq<DesiredModel>,
) -> bool {
    in_use(peer) && match e {
        ErrorModel::InvalidPublicKey { user_id, cause } => user_id == user.id && decoded_key(
            peer.public_key,
        ) == Err::<Seq<u8>, Seq<char>>(cause),
        ErrorModel::InvalidAllowedIp { value, cause } => address_list(peer).contains(value)
            && parsed_mask(value) == Err::<MaskModel, Seq<char>>(cause),
        ErrorModel::DuplicatePublicKey { public_key, user_id, existing_user_id } => user_id
            == user.id && public_key == peer.public_key && exists|k: int|
            0 <= k < known.len() && decoded_key(public_key) == Ok::<
                Seq<u8>,
                Seq<char>,
            >((#[trigger] known[k]).public_key) && known[k].user_id == existing_user_id,
        _ => false,
    }
}

proof fn lemma_collected_cause(texts: Seq<Seq<char>>, parsed: Seq<Result<MaskModel, Seq<char>>>)
    requires
        parsed.len() <= texts.len(),
        collected(texts, parsed) is Err,
    ensures
        exists|i: int|
            0 <= i < parsed.len() && (#[trigger] parsed[i]) is Err && collected(texts, parsed)
                == Err::<Seq<MaskModel>, ErrorModel>(
                ErrorModel::InvalidAllowedIp { value: texts[i], cause: parsed[i]->Err_0 },
            ),
    decreases parsed.len(),
{
    if parsed.len() > 0 {
        if collected(texts, parsed.drop_last()) is Err {
            lemma_collected_cause(texts, parsed.drop_last());
            let i = choose|i: int|
                0 <= i < parsed.drop_last().len() && (#[trigger] parsed.drop_last()[i]) is Err
                    && collected(texts, parsed.drop_last()) == Err::<Seq<MaskModel>, ErrorModel>(
                    ErrorModel::InvalidAllowedIp {
                        value: texts[i],
                        cause: parsed.drop_last()[i]->Err_0,
                    },
                );
            assert(parsed[i] is Err);
        } else {
            assert(parsed[parsed.len() - 1] is Err);
        }
    }
}

proof fn lemma_placed_cause(known: Seq<DesiredModel>, user: UserModel, peer: PeerModel)
    requires
        in_use(peer),
        placed(known, user, peer, decoded_key(peer.public_key), peer_masks(peer)) is Err,
    ensures
        borne_out(
            placed(known, user, peer, decoded_key(peer.public_key), peer_masks(peer))->Err_0,
            user,
            peer,
            known,
        ),
{
    if decoded_key(peer.public_key) is Ok {
        let texts = address_list(peer);
        if peer_masks(peer) is Err {
            lemma_collected_cause(texts, all_parsed(texts));
            let i = choose|i: int|
                0 <= i < texts.len() && (#[trigger] all_parsed(texts)[i]) is Err && peer_masks(
                    peer,
                ) == Err::<Seq<MaskModel>, ErrorModel>(
                    ErrorModel::InvalidAllowedIp {
                        value: texts[i],
                        cause: all_parsed(texts)[i]->Err_0,
                    },
                );
            assert(texts.contains(texts[i]));
        } else {
            lemma_position(known, decoded_key(peer.public_key)->Ok_0);
        }
    }
}

/// The causes of an error among the peers of one user.
pub open spec fn caused(
    e: ErrorModel,
    user: UserModel,
    peers: Seq<PeerModel>,
    known: Seq<DesiredModel>,
) -> bool {
    exists|j: int| 0 <= j < peers.len() && borne_out(e, user, #[trigger] peers[j], known)
}

proof fn lemma_more_known(
    e: ErrorModel,
    user: UserModel,
    peer: PeerModel,
    known: Seq<DesiredModel>,
    more: Seq<DesiredModel>,
)
    requires
        borne_out(e, user, peer, known),
    ensures
        borne_out(e, user, peer, known + more),
{
    if let ErrorModel::DuplicatePublicKey { public_key, user_id, existing_user_id } = e {
        let k = choose|k: int|
            0 <= k < known.len() && decoded_key(public_key) == Ok::<
                Seq<u8>,
                Seq<char>,
            >((#[trigger] known[k]).public_key) && known[k].user_id == existing_user_id;
        assert((known + more)[k] == known[k]);
    }
}

proof fn lemma_with_peers_cause(known: Seq<DesiredModel>, user: UserModel, peers: Seq<PeerModel>)
    requires
        distinct_keys(known),
        with_peers(Ok(known), user, peers) is Err,
    ensures
        caused(
            with_peers(Ok(known), user, peers)->Err_0,
            user,
            peers,
            known + wanted_of(user, peers),
        ),
    decreases peers.len(),
{
    if peers.len() > 0 {
        let head = peers.drop_last();
        let peer = peers.last();
        let before = known + wanted_of(user, head);
        let more = if wanted_peer(peer) {
            seq![as_desired(user, peer)]
        } else {
            seq![]
        };
        assert(known + wanted_of(user, peers) =~= before + more);
        let e = with_peers(Ok(known), user, peers)->Err_0;
        match with_peers(Ok(known), user, head) {
            Err(_) => {
                lemma_with_peers_cause(known, user, head);
                let j = choose|j: int|
                    0 <= j < head.len() && borne_out(e, user, #[trigger] head[j], before);
                lemma_more_known(e, user, head[j], before, more);
                assert(peers[j] == head[j]);
            },
            Ok(list) => {
                lemma_with_peers_exact(known, user, head);
                lemma_placed_cause(list, user, peer);
                lemma_more_known(e, user, peer, before, more);
                assert(peers[peers.len() - 1] == peer);
            },
        }
    }
}

/// A snapshot is refused for a cause that the error names: some peer in use has
/// an unreadable key, or an unreadable address, or the key of another wanted
/// peer.
pub proof fn refusals_have_a_cause(users: Seq<UserModel>)
    requires
        desired_list(users) is Err,
    ensures
        exists|i: int|
            0 <= i < users.len() && caused(
                desired_list(users)->Err_0,
                #[trigger] users[i],
                users[i].peers(),
                wanted(users),
            ),
    decreases users.len(),
{
    if users.len() > 0 {
        let head = users.drop_last();
        let user = users.last();
        let more = wanted_of(user, user.peers());
        let e = desired_list(users)->Err_0;
        match desired_list(head) {
            Err(first) => {
                lemma_error_stays(first, user, user.peers());
                refusals_have_a_cause(head);
                let i = choose|i: int|
                    0 <= i < head.len() && caused(
                        e,
                        #[trigger] head[i],
                        head[i].peers(),
                        wanted(head),
                    );
                let peers = head[i].peers();
                let j = choose|j: int|
                    0 <= j < peers.len() && borne_out(
                        e,
                        head[i],
                        #[trigger] peers[j],
                        wanted(head),
                    );
                lemma_more_known(e, head[i], peers[j], wanted(head), more);
                assert(caused(e, head[i], peers, wanted(users)));
                assert(users[i] == head[i]);
            },
            Ok(known) => {
                desired_peers_are_the_wanted_ones(head);
                lemma_with_peers_cause(known, user, user.peers());
                assert(users[users.len() - 1] == user);
            },
        }
    }
}

/// Those of a user's peers that are in use and have a readable key but no address,
/// each by its user and its key.
pub open spec fn unaddressed_of(user: UserModel, peers: Seq<PeerModel>) -> Seq<(u64, Seq<char>)>
    decreases peers.len(),
{
    if peers.len() == 0 {
        seq![]
    } else {
        let rest = unaddressed_of(user, peers.drop_last());
        if passed_over(peers.last()) {
            rest.push((user.id, peers.last().public_key))
        } else {
            rest
        }
    }
}

/// All peers that are in use and have a readable key but no address.
pub open spec fn unaddressed(users: Seq<UserModel>) -> Seq<(u64, Seq<char>)>
    decreases users.len(),
{
    if users.len() == 0 {
        seq![]
    } else {
        unaddressed(users.drop_last()) + unaddressed_of(users.last(), users.last().peers())
    }
}

proof fn lemma_skipped_of_accepted(
    so_far: Result<Seq<DesiredModel>, ErrorModel>,
    user: UserModel,
    peers: Seq<PeerModel>,
)
    requires
        with_peers(so_far, user, peers) is Ok,
    ensures
        skipped_of(so_far, user, peers) == unaddressed_of(user, peers),
    decreases peers.len(),
{
    if peers.len() > 0 {
        lemma_skipped_of_accepted(so_far, user, peers.drop_last());
    }
}

/// Of an accepted snapshot, just those peers are passed over that are in use and
/// have a readable key but no address.
pub proof fn accepted_snapshots_pass_over_the_unaddressed(users: Seq<UserModel>)
    requires
        desired_list(users) is Ok,
    ensures
        skipped(users) == unaddressed(users),
    decreases users.len(),
{
    if users.len() > 0 {
        let head = users.drop_last();
        let user = users.last();
        if let Err(e) = desired_list(head) {
            lemma_error_stays(e, user, user.peers());
        }
        accepted_snapshots_pass_over_the_unaddressed(head);
        lemma_skipped_of_accepted(desired_list(head), user, user.peers());
    }
}

proof fn lemma_unused_peer(
    so_far: Result<Seq<DesiredModel>, ErrorModel>,
    user: UserModel,
    front: Seq<PeerModel>,
    peer: PeerModel,
    back: Seq<PeerModel>,
    other: UserModel,
)
    requires
        !in_use(peer),
        user.id == other.id,
        user.speed_limit == other.speed_limit,
    ensures
        with_peers(so_far, user, front + seq![peer] + back) == with_peers(
            so_far,
            other,
            front + back,
        ),
    decreases back.len(),
{
    let with = front + seq![peer] + back;
    let without = front + back;
    if back.len() > 0 {
        lemma_unused_peer(so_far, user, front, peer, back.drop_last(), other);
        assert(with.drop_last() =~= front + seq![peer] + back.drop_last());
        assert(without.drop_last() =~= front + back.drop_last());
        assert(with.last() == back.last());
        assert(without.last() == back.last());
    } else {
        assert(with.drop_last() =~= front);
        assert(with.last() == peer);
        assert(without =~= front);
        lemma_same_user(so_far, user, other, front);
    }
}

proof fn lemma_same_user(
    so_far: Result<Seq<DesiredModel>, ErrorModel>,
    user: UserModel,
    other: UserModel,
    peers: Seq<PeerModel>,
)
    requires
        user.id == other.id,
        user.speed_limit == other.speed_limit,
    ensures
        with_peers(so_far, user, peers) == with_peers(so_far, other, peers),
    decreases peers.len(),
{
    if peers.len() > 0 {
        lemma_same_user(so_far, user, other, peers.drop_last());
    }
}

/// A peer that is switched off or revoked changes nothing: the same comes of the
/// snapshot, an error included, where the user at `k` lacks that peer.
pub proof fn unused_peers_change_nothing(
    users: Seq<UserModel>,
    k: int,
    front: Seq<PeerModel>,
    peer: PeerModel,
    back: Seq<PeerModel>,
    other: UserModel,
)
    requires
        0 <= k < users.len(),
        users[k].peers() == front + seq![peer] + back,
        !in_use(peer),
        other.peers() == front + back,
        other.id == users[k].id,
        other.speed_limit == users[k].speed_limit,
    ensures
        desired_list(users.update(k, other)) == desired_list(users),
    decreases users.len(),
{
    let changed = users.update(k, other);
    let head = users.drop_last();
    if k < head.len() {
        unused_peers_change_nothing(head, k, front, peer, back, other);
        assert(changed.drop_last() =~= head.update(k, other));
        assert(changed.last() == users.last());
    } else {
        assert(changed.drop_last() =~= head);
        assert(changed.last() == other);
        lemma_unused_peer(desired_list(head), users.last(), front, peer, back, other);
    }
}

/// The peers of an interface: their keys, each with its addresses.
pub type HostPeers = Map<Seq<u8>, Seq<MaskModel>>;

/// An interface's peers once those with the given keys are removed.
pub open spec fn removed(host: HostPeers, keys: Seq<Seq<u8>>) -> HostPeers
    decreases keys.len(),
{
    if keys.len() == 0 {
        host
    } else {
        removed(host, keys.drop_last()).remove(keys.last())
    }
}

/// An interface's peers once the given ones are configured in turn.
pub open spec fn configured(host: HostPeers, setups: Seq<SetupModel>) -> HostPeers
    decreases setups.len(),
{
    if setups.len() == 0 {
        host
    } else {
        configured(host, setups.drop_last()).insert(
            setups.last().public_key,
            setups.last().allowed_ips,
        )
    }
}

proof fn lemma_removed(host: HostPeers, keys: Seq<Seq<u8>>, key: Seq<u8>)
    ensures
        removed(host, keys).dom().contains(key) <==> host.dom().contains(key) && !keys.contains(
            key,
        ),
    decreases keys.len(),
{
    if keys.len() > 0 {
        lemma_removed(host, keys.drop_last(), key);
        if keys.contains(key) && key != keys.last() {
            let i = choose|i: int| 0 <= i < keys.len() && keys[i] == key;
            assert(keys.drop_last()[i] == key);
        }
        if keys.drop_last().contains(key) {
            let i = choose|i: int|
                0 <= i < keys.drop_last().len() && keys.drop_last()[i] == key;
            assert(keys[i] == key);
        }
        assert(keys.contains(keys.last())) by {
            assert(keys[keys.len() - 1] == keys.last());
        }
    }
}

proof fn lemma_stale(current: Seq<Seq<u8>>, peers: Seq<DesiredModel>, key: Seq<u8>)
    ensures
        stale_keys(current, peers).contains(key) <==> current.contains(key) && position(
            peers,
            key,
        ) is None,
    decreases current.len(),
{
    if current.len() > 0 {
        let head = current.drop_last();
        let rest = stale_keys(head, peers);
        lemma_stale(head, peers, key);
        let all = stale_keys(current, peers);
        if head.contains(key) {
            let i = choose|i: int| 0 <= i < head.len() && head[i] == key;
            assert(current[i] == key);
        }
        if current.contains(key) && key != current.last() {
            let i = choose|i: int| 0 <= i < current.len() && current[i] == key;
            assert(head[i] == key);
        }
        assert(current[current.len() - 1] == current.last());
        if rest.contains(key) {
            let i = choose|i: int| 0 <= i < rest.len() && rest[i] == key;
            assert(all[i] == key);
        }
        if all.contains(key) && key != current.last() {
            let i = choose|i: int| 0 <= i < all.len() && all[i] == key;
            assert(rest[i] == key);
        }
        if position(peers, current.last()) is None {
            assert(all[rest.len() as int] == current.last());
        }
    }
}

proof fn lemma_configured(host: HostPeers, peers: Seq<DesiredModel>, key: Seq<u8>)
    requires
        distinct_keys(peers),
    ensures
        configured(host, setups_of(peers)).dom().contains(key) <==> host.dom().contains(key)
            || position(peers, key) is Some,
        position(peers, key) matches Some(i) ==> configured(host, setups_of(peers))[key]
            == peers[i].allowed_ips,
    decreases peers.len(),
{
    let setups = setups_of(peers);
    if peers.len() > 0 {
        let head = peers.drop_last();
        assert(peers =~= head + seq![peers.last()]);
        lemma_distinct_prefix(head, seq![peers.last()]);
        assert(setups.drop_last() =~= setups_of(head));
        assert(setups.last() == setup_of(peers.last()));
        lemma_configured(host, head, key);
        lemma_position(head, key);
        lemma_position(peers, key);
        if let Some(i) = position(head, key) {
            assert(peers[i].public_key != peers[peers.len() - 1].public_key);
            assert(peers[i] == head[i]);
        }
    }
}

/// Once stale peers are removed and the desired ones configured, the interface
/// holds the desired peers with their addresses and no others, whatever it held
/// before. `current` lists the keys that it held.
pub proof fn reconciling_leaves_the_desired_peers(
    host: HostPeers,
    current: Seq<Seq<u8>>,
    peers: Seq<DesiredModel>,
)
    requires
        distinct_keys(peers),
        forall|key: Seq<u8>| host.dom().contains(key) <==> #[trigger] current.contains(key),
    ensures
        ({
            let after = configured(removed(host, stale_keys(current, peers)), setups_of(peers));
            &&& forall|key: Seq<u8>|
                #[trigger] after.dom().contains(key) <==> position(peers, key) is Some
            &&& forall|i: int|
                0 <= i < peers.len() ==> after[(#[trigger] peers[i]).public_key]
                    == peers[i].allowed_ips
        }),
{
    let kept = removed(host, stale_keys(current, peers));
    let after = configured(kept, setups_of(peers));
    assert forall|key: Seq<u8>| #[trigger] after.dom().contains(key) <==> position(
        peers,
        key,
    ) is Some by {
        lemma_configured(kept, peers, key);
        lemma_removed(host, stale_keys(current, peers), key);
        lemma_stale(current, peers, key);
        assert(host.dom().contains(key) <==> current.contains(key));
    }
    assert forall|i: int| 0 <= i < peers.len() implies after[(#[trigger] peers[i]).public_key]
        == peers[i].allowed_ips by {
        let key = peers[i].public_key;
        lemma_configured(kept, peers, key);
        lemma_position(peers, key);
        let k = position(peers, key)->0;
        if k < i {
            assert(peers[k].public_key != peers[i].public_key);
        }
    }
}

/// Reconciling twice in a row finds nothing stale the second time.
pub proof fn reconciled_interface_has_no_stale_peers(peers: Seq<DesiredModel>, current: Seq<Seq<u8>>)
    requires
        forall|i: int|
            0 <= i < current.len() ==> position(peers, #[trigger] current[i]) is Some,
    ensures
        stale_keys(current, peers) == Seq::<Seq<u8>>::empty(),
    decreases current.len(),
{
    if current.len() > 0 {
        assert(current[current.len() - 1] == current.last());
        assert forall|i: int| 0 <= i < current.drop_last().len() implies position(
            peers,
            #[trigger] current.drop_last()[i],
        ) is Some by {
            assert(current.drop_last()[i] == current[i]);
        }
        reconciled_interface_has_no_stale_peers(peers, current.drop_last());
    }
}

/// The addresses of a peer are named by its allowed addresses, in their order, if
/// there are any, and then by nothing else. Otherwise `ipv4` names one, or `ip`
/// where there is no `ipv4`, and after that `ipv6` names one.
pub proof fn addresses_come_from_the_first_source(peer: PeerModel)
    ensures
        peer.allowed_ips.len() > 0 ==> address_list(peer) == peer.allowed_ips,
        peer.allowed_ips.len() == 0 ==> match (peer.ipv4, peer.ip, peer.ipv6) {
            (Some(v4), _, Some(v6)) => address_list(peer) == seq![v4, v6],
            (Some(v4), _, None) => address_list(peer) == seq![v4],
            (None, Some(v4), Some(v6)) => address_list(peer) == seq![v4, v6],
            (None, Some(v4), None) => address_list(peer) == seq![v4],
            (None, None, Some(v6)) => address_list(peer) == seq![v6],
            (None, None, None) => address_list(peer).len() == 0,
        },
{
}

/// A user's peers are those of its list, if it has any, and else its single peer.
pub proof fn peers_come_from_the_list_first(user: UserModel)
    ensures
        user.wireguard_peers.len() > 0 ==> user.peers() == user.wireguard_peers,
        user.wireguard_peers.len() == 0 && user.wireguard is None ==> user.peers().len() == 0,
        user.wireguard_peers.len() == 0 ==> (user.wireguard matches Some(peer) ==> user.peers()
            == seq![peer]),
{
}

/// Collecting what was read gives one mask for each text, in their order, if all
/// were read, and else names the first that was not, and why.
pub proof fn collecting_keeps_order_or_names_the_first(
    texts: Seq<Seq<char>>,
    parsed: Seq<Result<MaskModel, Seq<char>>>,
)
    requires
        texts.len() == parsed.len(),
    ensures
        match collected(texts, parsed) {
            Ok(masks) => masks.len() == parsed.len() && forall|i: int|
                0 <= i < parsed.len() ==> #[trigger] parsed[i] == Ok::<MaskModel, Seq<char>>(
                    masks[i],
                ),
            Err(e) => exists|i: int|
                {
                    &&& 0 <= i < parsed.len()
                    &&& (#[trigger] parsed[i]) is Err
                    &&& forall|j: int| 0 <= j < i ==> (#[trigger] parsed[j]) is Ok
                    &&& e == (ErrorModel::InvalidAllowedIp {
                        value: texts[i],
                        cause: parsed[i]->Err_0,
                    })
                },
        },
{
    lemma_collected_exact(texts, parsed);
}

proof fn lemma_collected_exact(texts: Seq<Seq<char>>, parsed: Seq<Result<MaskModel, Seq<char>>>)
    requires
        texts.len() >= parsed.len(),
    ensures
        match collected(texts, parsed) {
            Ok(masks) => masks.len() == parsed.len() && forall|i: int|
                0 <= i < parsed.len() ==> #[trigger] parsed[i] == Ok::<MaskModel, Seq<char>>(
                    masks[i],
                ),
            Err(e) => exists|i: int|
                {
                    &&& 0 <= i < parsed.len()
                    &&& (#[trigger] parsed[i]) is Err
                    &&& forall|j: int| 0 <= j < i ==> (#[trigger] parsed[j]) is Ok
                    &&& e == (ErrorModel::InvalidAllowedIp {
                        value: texts[i],
                        cause: parsed[i]->Err_0,
                    })
                },
        },
    decreases parsed.len(),
{
    if parsed.len() > 0 {
        let head = parsed.drop_last();
        lemma_collected_exact(texts, head);
        assert forall|i: int| 0 <= i < head.len() implies head[i] == #[trigger] parsed[i] by {}
        match collected(texts, head) {
            Err(e) => {
                let i = choose|i: int|
                    {
                        &&& 0 <= i < head.len()
                        &&& (#[trigger] head[i]) is Err
                        &&& forall|j: int| 0 <= j < i ==> (#[trigger] head[j]) is Ok
                        &&& e == (ErrorModel::InvalidAllowedIp {
                            value: texts[i],
                            cause: head[i]->Err_0,
                        })
                    };
                assert forall|j: int| 0 <= j < i implies (#[trigger] parsed[j]) is Ok by {
                    assert(head[j] is Ok);
                }
                assert(parsed[i] is Err);
            },
            Ok(masks) => {
                let n = head.len() as int;
                if parsed[n] is Err {
                    assert forall|j: int| 0 <= j < n implies (#[trigger] parsed[j]) is Ok by {
                        assert(head[j] is Ok);
                    }
                } else {
                    assert forall|i: int| 0 <= i < parsed.len() implies #[trigger] parsed[i]
                        == Ok::<MaskModel, Seq<char>>(collected(texts, parsed)->Ok_0[i]) by {
                        if i < n {
                            assert(head[i] == Ok::<MaskModel, Seq<char>>(masks[i]));
                        }
                    }
                }
            },
        }
    }
}

/// A peer's addresses are read from the texts that name them, one for each text
/// and in their order; the first text that is no address is named instead.
pub proof fn addresses_are_read_from_their_texts(peer: PeerModel)
    ensures
        match peer_masks(peer) {
            Ok(masks) => masks.len() == address_list(peer).len() && forall|i: int|
                0 <= i < masks.len() ==> parsed_mask(#[trigger] address_list(peer)[i]) == Ok::<
                    MaskModel,
                    Seq<char>,
                >(masks[i]),
            Err(e) => exists|i: int|
                {
                    &&& 0 <= i < address_list(peer).len()
                    &&& parsed_mask(#[trigger] address_list(peer)[i]) is Err
                    &&& forall|j: int|
                        0 <= j < i ==> parsed_mask(#[trigger] address_list(peer)[j]) is Ok
                    &&& e == (ErrorModel::InvalidAllowedIp {
                        value: address_list(peer)[i],
                        cause: parsed_mask(address_list(peer)[i])->Err_0,
                    })
                },
        },
{
    let texts = address_list(peer);
    let parsed = all_parsed(texts);
    lemma_collected_exact(texts, parsed);
    assert(forall|i: int| 0 <= i < texts.len() ==> #[trigger] parsed[i] == parsed_mask(texts[i]));
    match peer_masks(peer) {
        Ok(masks) => {
            assert forall|i: int| 0 <= i < masks.len() implies parsed_mask(
                #[trigger] address_list(peer)[i],
            ) == Ok::<MaskModel, Seq<char>>(masks[i]) by {
                assert(parsed[i] == Ok::<MaskModel, Seq<char>>(masks[i]));
            }
        },
        Err(e) => {
            let i = choose|i: int|
                {
                    &&& 0 <= i < parsed.len()
                    &&& (#[trigger] parsed[i]) is Err
                    &&& forall|j: int| 0 <= j < i ==> (#[trigger] parsed[j]) is Ok
                    &&& e == (ErrorModel::InvalidAllowedIp {
                        value: texts[i],
                        cause: parsed[i]->Err_0,
                    })
                };
            assert forall|j: int| 0 <= j < i implies parsed_mask(
                #[trigger] address_list(peer)[j],
            ) is Ok by {
                assert(parsed[j] is Ok);
            }
            assert(parsed_mask(address_list(peer)[i]) is Err);
        },
    }
}

/// A snapshot without users asks for no peers and passes none over, and a user
/// without peers changes nothing.
pub proof fn nobody_asks_for_nothing(users: Seq<UserModel>, user: UserModel)
    requires
        user.peers().len() == 0,
    ensures
        desired_list(Seq::<UserModel>::empty()) == Ok::<Seq<DesiredModel>, ErrorModel>(
            Seq::empty(),
        ),
        skipped(Seq::<UserModel>::empty()) == Seq::<(u64, Seq<char>)>::empty(),
        desired_list(users.push(user)) == desired_list(users),
        skipped(users.push(user)) == skipped(users),
{
    assert(users.push(user).drop_last() =~= users);
    assert(skipped(users) + Seq::<(u64, Seq<char>)>::empty() =~= skipped(users));
}

proof fn lemma_same_skipped(
    so_far: Result<Seq<DesiredModel>, ErrorModel>,
    user: UserModel,
    other: UserModel,
    peers: Seq<PeerModel>,
)
    requires
        user.id == other.id,
        user.speed_limit == other.speed_limit,
    ensures
        skipped_of(so_far, user, peers) == skipped_of(so_far, other, peers),
    decreases peers.len(),
{
    if peers.len() > 0 {
        lemma_same_user(so_far, user, other, peers.drop_last());
        lemma_same_skipped(so_far, user, other, peers.drop_last());
    }
}

proof fn lemma_one_more(users: Seq<UserModel>, user: UserModel, more: UserModel, peer: PeerModel)
    requires
        more.id == user.id,
        more.speed_limit == user.speed_limit,
        more.peers() == user.peers().push(peer),
    ensures
        desired_list(users.push(more)) == with_peers(
            desired_list(users),
            more,
            user.peers().push(peer),
        ),
        with_peers(desired_list(users), more, user.peers()) == desired_list(users.push(user)),
        skipped(users.push(more)) == skipped(users) + skipped_of(
            desired_list(users),
            more,
            user.peers().push(peer),
        ),
        skipped(users.push(user)) == skipped(users) + skipped_of(
            desired_list(users),
            more,
            user.peers(),
        ),
        user.peers().push(peer).drop_last() == user.peers(),
        user.peers().push(peer).last() == peer,
{
    assert(users.push(more).drop_last() =~= users);
    assert(users.push(user).drop_last() =~= users);
    assert(user.peers().push(peer).drop_last() =~= user.peers());
    lemma_same_user(desired_list(users), user, more, user.peers());
    lemma_same_skipped(desired_list(users), user, more, user.peers());
}

/// A revoked peer, whenever it was revoked, and a peer that is switched off add
/// nothing to a snapshot, whatever else they hold.
pub proof fn revoked_peers_add_nothing(
    users: Seq<UserModel>,
    user: UserModel,
    more: UserModel,
    peer: PeerModel,
)
    requires
        more.id == user.id,
        more.speed_limit == user.speed_limit,
        more.peers() == user.peers().push(peer),
        peer.revoked_at is Some || peer.enabled == Some(0i64),
    ensures
        desired_list(users.push(more)) == desired_list(users.push(user)),
        skipped(users.push(more)) == skipped(users.push(user)),
{
    lemma_one_more(users, user, more, peer);
}

/// An error stays: once a snapshot is refused, more peers do not change for what.
pub proof fn refused_snapshots_stay_refused(
    users: Seq<UserModel>,
    user: UserModel,
    more: UserModel,
    peer: PeerModel,
)
    requires
        more.id == user.id,
        more.speed_limit == user.speed_limit,
        more.peers() == user.peers().push(peer),
        desired_list(users.push(user)) is Err,
    ensures
        desired_list(users.push(more)) == desired_list(users.push(user)),
        skipped(users.push(more)) == skipped(users.push(user)),
{
    lemma_one_more(users, user, more, peer);
}

/// One more peer that is neither revoked nor switched off, after peers that were
/// accepted, is refused if its key cannot be read, or else if one of its addresses
/// cannot, or else if its key is there already; it is passed over and named if it
/// has no address, and otherwise put behind the peers that are there, with what the
/// panel sent of it.
pub proof fn one_more_peer_is_placed_or_refused(
    users: Seq<UserModel>,
    user: UserModel,
    more: UserModel,
    peer: PeerModel,
)
    requires
        more.id == user.id,
        more.speed_limit == user.speed_limit,
        more.peers() == user.peers().push(peer),
        peer.revoked_at is None,
        peer.enabled != Some(0i64),
        desired_list(users.push(user)) is Ok,
    ensures
        ({
            let list = desired_list(users.push(user))->Ok_0;
            let after = desired_list(users.push(more));
            let texts = address_list(peer);
            let named = skipped(users.push(user));
            match decoded_key(peer.public_key) {
                Err(cause) => after == Err::<Seq<DesiredModel>, ErrorModel>(
                    ErrorModel::InvalidPublicKey { user_id: user.id, cause },
                ) && skipped(users.push(more)) == named,
                Ok(key) => if texts.len() == 0 {
                    after == Ok::<Seq<DesiredModel>, ErrorModel>(list) && skipped(users.push(more))
                        == named.push((user.id, peer.public_key))
                } else {
                    &&& skipped(users.push(more)) == named
                    &&& match after {
                        Ok(longer) => {
                            &&& forall|i: int|
                                0 <= i < texts.len() ==> parsed_mask(#[trigger] texts[i]) is Ok
                            &&& forall|k: int|
                                0 <= k < list.len() ==> (#[trigger] list[k]).public_key != key
                            &&& longer.len() == list.len() + 1
                            &&& longer.drop_last() == list
                            &&& longer.last().public_key == key
                            &&& longer.last().public_key_string == peer.public_key
                            &&& longer.last().peer_id == peer.peer_id
                            &&& peer.user_id matches Some(id) ==> longer.last().user_id == id
                            &&& peer.user_id is None ==> longer.last().user_id == user.id
                            &&& peer.device_id matches Some(id) ==> longer.last().device_id == id
                            &&& peer.device_id is None ==> longer.last().device_id == "default"@
                            &&& peer.speed_limit is Some ==> longer.last().speed_limit_mbps
                                == peer.speed_limit
                            &&& peer.speed_limit is None ==> longer.last().speed_limit_mbps
                                == user.speed_limit
                            &&& longer.last().allowed_ips.len() == texts.len()
                            &&& forall|i: int|
                                0 <= i < texts.len() ==> parsed_mask(#[trigger] texts[i]) == Ok::<
                                    MaskModel,
                                    Seq<char>,
                                >(longer.last().allowed_ips[i])
                        },
                        Err(ErrorModel::InvalidAllowedIp { value, cause }) => exists|i: int|
                            {
                                &&& 0 <= i < texts.len()
                                &&& value == #[trigger] texts[i]
                                &&& parsed_mask(texts[i]) == Err::<MaskModel, Seq<char>>(cause)
                                &&& forall|j: int|
                                    0 <= j < i ==> parsed_mask(#[trigger] texts[j]) is Ok
                            },
                        Err(
                            ErrorModel::DuplicatePublicKey { public_key, user_id, existing_user_id },
                        ) => {
                            &&& forall|i: int|
                                0 <= i < texts.len() ==> parsed_mask(#[trigger] texts[i]) is Ok
                            &&& public_key == peer.public_key
                            &&& user_id == user.id
                            &&& exists|k: int|
                                0 <= k < list.len() && (#[trigger] list[k]).public_key == key
                                    && list[k].user_id == existing_user_id
                        },
                        Err(_) => false,
                    }
                },
            }
        }),
{
    lemma_one_more(users, user, more, peer);
    addresses_are_read_from_their_texts(peer);
    let list = desired_list(users.push(user))->Ok_0;
    if let Ok(key) = decoded_key(peer.public_key) {
        lemma_position(list, key);
        let texts = address_list(peer);
        if texts.len() == 0 {
            assert(skipped(users.push(more)) =~= skipped(users.push(user)).push(
                (user.id, peer.public_key),
            ));
        } else {
            match peer_masks(peer) {
                Ok(masks) => {
                    assert forall|i: int| 0 <= i < texts.len() implies parsed_mask(
                        #[trigger] texts[i],
                    ) == Ok::<MaskModel, Seq<char>>(masks[i]) by {
                        assert(texts[i] == address_list(peer)[i]);
                    }
                    if position(list, key) is None {
                        assert(desired_list(users.push(more))->Ok_0.drop_last() =~= list);
                    }
                },
                Err(e) => {
                    let i = choose|i: int|
                        {
                            &&& 0 <= i < address_list(peer).len()
                            &&& parsed_mask(#[trigger] address_list(peer)[i]) is Err
                            &&& forall|j: int|
                                0 <= j < i ==> parsed_mask(#[trigger] address_list(peer)[j]) is Ok
                            &&& e == (ErrorModel::InvalidAllowedIp {
                                value: address_list(peer)[i],
                                cause: parsed_mask(address_list(peer)[i])->Err_0,
                            })
                        };
                    assert(texts[i] == address_list(peer)[i]);
                },
            }
        }
    }
}

proof fn lemma_wanted_of_source(user: UserModel, peers: Seq<PeerModel>, k: int) -> (j: int)
    requires
        0 <= k < wanted_of(user, peers).len(),
    ensures
        0 <= j < peers.len(),
        wanted_peer(peers[j]),
        wanted_of(user, peers)[k] == as_desired(user, peers[j]),
    decreases peers.len(),
{
    let head = peers.drop_last();
    if k < wanted_of(user, head).len() {
        let j = lemma_wanted_of_source(user, head, k);
        assert(peers[j] == head[j]);
        j
    } else {
        peers.len() - 1
    }
}

proof fn lemma_wanted_source(users: Seq<UserModel>, k: int) -> (at: (int, int))
    requires
        0 <= k < wanted(users).len(),
    ensures
        0 <= at.0 < users.len(),
        0 <= at.1 < users[at.0].peers().len(),
        wanted_peer(users[at.0].peers()[at.1]),
        wanted(users)[k] == as_desired(users[at.0], users[at.0].peers()[at.1]),
    decreases users.len(),
{
    let head = users.drop_last();
    let n = wanted(head).len();
    if k < n {
        let at = lemma_wanted_source(head, k);
        assert(users[at.0] == head[at.0]);
        at
    } else {
        let user = users.last();
        let j = lemma_wanted_of_source(user, user.peers(), k - n);
        assert(users[users.len() - 1] == user);
        (users.len() - 1, j)
    }
}

proof fn lemma_wanted_of_target(user: UserModel, peers: Seq<PeerModel>, j: int) -> (k: int)
    requires
        0 <= j < peers.len(),
        wanted_peer(peers[j]),
    ensures
        0 <= k < wanted_of(user, peers).len(),
        wanted_of(user, peers)[k] == as_desired(user, peers[j]),
    decreases peers.len(),
{
    let head = peers.drop_last();
    if j < head.len() {
        assert(head[j] == peers[j]);
        lemma_wanted_of_target(user, head, j)
    } else {
        wanted_of(user, head).len() as int
    }
}

proof fn lemma_wanted_target(users: Seq<UserModel>, i: int, j: int) -> (k: int)
    requires
        0 <= i < users.len(),
        0 <= j < users[i].peers().len(),
        wanted_peer(users[i].peers()[j]),
    ensures
        0 <= k < wanted(users).len(),
        wanted(users)[k] == as_desired(users[i], users[i].peers()[j]),
    decreases users.len(),
{
    let head = users.drop_last();
    if i < head.len() {
        assert(head[i] == users[i]);
        lemma_wanted_target(head, i, j)
    } else {
        let user = users.last();
        let k = lemma_wanted_of_target(user, user.peers(), j);
        wanted(head).len() + k
    }
}

/// Every desired peer of an accepted snapshot comes from a peer that the panel sent
/// without a time of revocation and not switched off, under that peer's key.
pub proof fn no_desired_peer_is_revoked_or_off(users: Seq<UserModel>, k: int)
    requires
        desired_list(users) is Ok,
        0 <= k < desired_list(users)->Ok_0.len(),
    ensures
        exists|i: int, j: int|
            {
                let one = desired_list(users)->Ok_0[k];
                let peer = users[i].peers()[j];
                &&& 0 <= i < users.len()
                &&& 0 <= j < users[i].peers().len()
                &&& (#[trigger] users[i].peers()[j]).revoked_at is None
                &&& peer.enabled != Some(0i64)
                &&& decoded_key(peer.public_key) == Ok::<Seq<u8>, Seq<char>>(one.public_key)
                &&& one.public_key_string == peer.public_key
                &&& one.allowed_ips.len() == address_list(peer).len()
                &&& one.allowed_ips.len() > 0
                &&& one.user_id == users[i].id || peer.user_id == Some(one.user_id)
            },
{
    desired_peers_are_the_wanted_ones(users);
    let at = lemma_wanted_source(users, k);
    let peer = users[at.0].peers()[at.1];
    addresses_are_read_from_their_texts(peer);
    assert(users[at.0].peers()[at.1].revoked_at is None);
}

/// Every peer that the panel sent with an address, without a time of revocation and
/// not switched off, is among the desired peers of an accepted snapshot, under its
/// key.
pub proof fn usable_peers_are_desired(users: Seq<UserModel>, i: int, j: int)
    requires
        desired_list(users) is Ok,
        0 <= i < users.len(),
        0 <= j < users[i].peers().len(),
        users[i].peers()[j].revoked_at is None,
        users[i].peers()[j].enabled != Some(0i64),
        address_list(users[i].peers()[j]).len() > 0,
    ensures
        decoded_key(users[i].peers()[j].public_key) is Ok,
        exists|k: int|
            {
                let peer = users[i].peers()[j];
                let one = desired_list(users)->Ok_0[k];
                &&& 0 <= k < desired_list(users)->Ok_0.len()
                &&& decoded_key(peer.public_key) == Ok::<Seq<u8>, Seq<char>>(
                    (#[trigger] desired_list(users)->Ok_0[k]).public_key,
                )
                &&& one.public_key_string == peer.public_key
                &&& one.peer_id == peer.peer_id
                &&& one.allowed_ips.len() == address_list(peer).len()
            },
{
    desired_peers_are_the_wanted_ones(users);
    let peer = users[i].peers()[j];
    assert(readable_peers(users[i].peers()));
    assert(in_use(peer));
    addresses_are_read_from_their_texts(peer);
    assert(wanted_peer(peer));
    let k = lemma_wanted_target(users, i, j);
    assert(desired_list(users)->Ok_0[k].public_key == decoded_key(peer.public_key)->Ok_0);
}

/// No two desired peers of an accepted snapshot have the same key.
pub proof fn desired_keys_differ(users: Seq<UserModel>, i: int, j: int)
    requires
        desired_list(users) is Ok,
        0 <= i < j < desired_list(users)->Ok_0.len(),
    ensures
        desired_list(users)->Ok_0[i].public_key != desired_list(users)->Ok_0[j].public_key,
{
    desired_peers_have_distinct_keys(users);
}

/// A key is found among peers exactly if one of them has it, and then at the first
/// that does.
pub proof fn keys_are_found_where_they_are(peers: Seq<DesiredModel>, key: Seq<u8>)
    ensures
        match position(peers, key) {
            Some(i) => 0 <= i < peers.len() && peers[i].public_key == key && (forall|j: int|
                0 <= j < i ==> (#[trigger] peers[j]).public_key != key),
            None => forall|j: int| 0 <= j < peers.len() ==> (#[trigger] peers[j]).public_key != key,
        },
{
    lemma_position(peers, key);
}

/// The interface is told of each desired peer, in their order, its key and its
/// addresses.
pub proof fn setups_are_those_of_the_peers(peers: Seq<DesiredModel>)
    ensures
        setups_of(peers).len() == peers.len(),
        forall|i: int|
            0 <= i < peers.len() ==> (#[trigger] setups_of(peers)[i]).public_key
                == peers[i].public_key && setups_of(peers)[i].allowed_ips == peers[i].allowed_ips,
{
}

/// One more key of the interface is stale, and then the last of the stale ones,
/// exactly if no desired peer has it.
pub proof fn keys_without_a_peer_are_stale(
    current: Seq<Seq<u8>>,
    key: Seq<u8>,
    peers: Seq<DesiredModel>,
)
    ensures
        stale_keys(Seq::<Seq<u8>>::empty(), peers).len() == 0,
        (exists|i: int| 0 <= i < peers.len() && (#[trigger] peers[i]).public_key == key)
            ==> stale_keys(current.push(key), peers) == stale_keys(current, peers),
        (forall|i: int| 0 <= i < peers.len() ==> (#[trigger] peers[i]).public_key != key)
            ==> stale_keys(current.push(key), peers) == stale_keys(current, peers).push(key),
{
    assert(current.push(key).drop_last() =~= current);
    lemma_position(peers, key);
}

} // verus!
