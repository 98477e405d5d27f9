use vstd::prelude::*;

use crate::roster::{EndpointId, Member, NetworkRole};

verus! {

/// The domain Magic DNS serves mesh names under: `<host>.<network>.ray`.
pub const DNS_DOMAIN: &'static str = "ray";

/// Whether two identities are the same key.
pub fn same_identity(a: &EndpointId, b: &EndpointId) -> (same: bool)
    ensures
        same <==> a.bytes@ == b.bytes@,
{
    let mut i: usize = 0;
    while i < 32
        invariant
            i <= 32,
            forall|k: int| 0 <= k < i ==> a.bytes@[k] == b.bytes@[k],
        decreases 32 - i,
    {
        if a.bytes[i] != b.bytes[i] {
            return false;
        }
        i = i + 1;
    }
    assert(a.bytes@ =~= b.bytes@);
    true
}

/// The hostnames members other than `except` claim, in roster order.
pub open spec fn hostnames_taken(members: Seq<Member>, except: EndpointId) -> Seq<String>
    decreases members.len(),
{
    if members.len() == 0 {
        Seq::empty()
    } else {
        let earlier = hostnames_taken(members.drop_last(), except);
        let m = members.last();
        if m.identity.bytes@ != except.bytes@ && m.hostname is Some {
            earlier.push(m.hostname.unwrap())
        } else {
            earlier
        }
    }
}

/// Hostnames currently claimed by other members (excluding `except`), used to
/// resolve a rename or join collision against the roster.
pub fn taken_hostnames(members: &[Member], except: EndpointId) -> (taken: Vec<String>)
    ensures
        taken@ == hostnames_taken(members@, except),
{
    let mut taken: Vec<String> = Vec::new();
    let mut i: usize = 0;
    while i < members.len()
        invariant
            i <= members@.len(),
            taken@ == hostnames_taken(members@.take(i as int), except),
        decreases members@.len() - i,
    {
        let m = &members[i];
        assert(members@.take(i + 1).drop_last() =~= members@.take(i as int));
        if !same_identity(&m.identity, &except) {
            match &m.hostname {
                Some(h) => taken.push(h.clone()),
                None => {},
            }
        }
        i = i + 1;
    }
    assert(members@.take(members@.len() as int) =~= members@);
    taken
}

/// The rename intent a node records after renaming itself on a network: a
/// member keeps the new name as a pending intent until the signed roster
/// confirms it; a coordinator publishes authoritatively and records none.
pub fn pending_hostname_intent(is_coordinator: bool, new_hostname: &str) -> (pending: Option<
    String,
>)
    ensures
        is_coordinator ==> pending is None,
        !is_coordinator ==> (pending matches Some(p) && p@ == new_hostname@),
{
    if is_coordinator {
        None
    } else {
        Some(String::from_str(new_hostname))
    }
}

/// The confirmation of a rename: the new hostname and the full Magic DNS
/// name it is now reachable at.
pub open spec fn rename_message(new_hostname: Seq<char>, network: Seq<char>) -> Seq<char> {
    "hostname set to "@ + new_hostname + " ("@ + new_hostname + "."@ + network + "."@ + DNS_DOMAIN@
        + ")"@
}

/// `hostname set to <name> (<name>.<network>.ray)`, the line a rename
/// answers with.
pub fn hostname_set_message(new_hostname: &str, network: &str) -> (message: String)
    ensures
        message@ == rename_message(new_hostname@, network@),
{
    let mut m = String::from_str("hostname set to ");
    m.append(new_hostname);
    m.append(" (");
    m.append(new_hostname);
    m.append(".");
    m.append(network);
    m.append(".");
    m.append(DNS_DOMAIN);
    m.append(")");
    m
}

/// The answer to a rename with a name that is not a valid hostname.
pub open spec fn invalid_hostname_message() -> Seq<char> {
    "invalid hostname (lowercase ASCII, 1-63 chars)"@
}

/// The answer to a rename on a network this node has not joined.
pub open spec fn network_not_found_message(network: Seq<char>) -> Seq<char> {
    "network '"@ + network + "' not found"@
}

/// What renaming this node on a network comes to.
#[derive(Debug)]
pub enum RenamePlan {
    /// The requested name is not a valid hostname; nothing changes.
    InvalidHostname { message: String },
    /// This node has not joined the network; nothing changes.
    NetworkNotFound { message: String },
    /// Take `hostname` (in the roster entry, the DNS tables and the config),
    /// record `pending` as the durable rename intent, announce the name to
    /// connected peers, republish the signed roster when `republish`, and
    /// answer with `message`.
    Rename { hostname: String, pending: Option<String>, republish: bool, message: String },
}

/// Plan a rename of this node to `requested` on `network`, given whether
/// the name is a valid hostname, the node's role on the network (`None` when
/// it has not joined it) and `resolved`, the name the coordinator's collision
/// resolution gives `requested` against the roster. A coordinator is
/// authoritative: it takes the resolved name, records no pending intent and
/// republishes. A member applies the requested name optimistically and keeps
/// it as a pending intent until the coordinator confirms it.
pub fn plan_rename(
    hostname_valid: bool,
    role: Option<NetworkRole>,
    requested: &str,
    resolved: &str,
    network: &str,
) -> (plan: RenamePlan)
    ensures
        match plan {
            RenamePlan::InvalidHostname { message } => !hostname_valid && message@
                == invalid_hostname_message(),
            RenamePlan::NetworkNotFound { message } => hostname_valid && role is None && message@
                == network_not_found_message(network@),
            RenamePlan::Rename { hostname, pending, republish, message } => {
                let coordinator = role == Some(NetworkRole::Coordinator);
                &&& hostname_valid
                &&& role is Some
                &&& hostname@ == (if coordinator {
                    resolved@
                } else {
                    requested@
                })
                &&& republish == coordinator
                &&& (pending is None <==> coordinator)
                &&& (pending matches Some(p) ==> p@ == hostname@)
                &&& message@ == rename_message(hostname@, network@)
            },
        },
{
    if !hostname_valid {
        return RenamePlan::InvalidHostname {
            message: String::from_str("invalid hostname (lowercase ASCII, 1-63 chars)"),
        };
    }
    let is_coord = match role {
        Some(r) => r.is_coordinator(),
        None => {
            let mut message = String::from_str("network '");
            message.append(network);
            message.append("' not found");
            return RenamePlan::NetworkNotFound { message };
        },
    };
    let new_hostname = if is_coord {
        String::from_str(resolved)
    } else {
        String::from_str(requested)
    };
    let pending = pending_hostname_intent(is_coord, new_hostname.as_str());
    let message = hostname_set_message(new_hostname.as_str(), network);
    RenamePlan::Rename { hostname: new_hostname, pending, republish: is_coord, message }
}

/// Whether `id` is among `ids`.
pub open spec fn listed(ids: Seq<EndpointId>, id: EndpointId) -> bool {
    exists|i: int| 0 <= i < ids.len() && ids[i].bytes@ == id.bytes@
}

fn is_listed(ids: &[EndpointId], id: &EndpointId) -> (found: bool)
    ensures
        found == listed(ids@, *id),
{
    let mut i: usize = 0;
    while i < ids.len()
        invariant
            i <= ids@.len(),
            forall|k: int| 0 <= k < i ==> ids@[k].bytes@ != id.bytes@,
        decreases ids@.len() - i,
    {
        if same_identity(&ids[i], id) {
            return true;
        }
        i = i + 1;
    }
    false
}

/// Whether roster entry `i` is worth dialing to deliver a trigger it missed.
pub open spec fn dial_candidate(
    roster: Seq<Member>,
    roster_ipv6: Seq<u128>,
    my_id: EndpointId,
    exclude_ip: Option<u128>,
    reached: Seq<EndpointId>,
    offline: Seq<bool>,
    i: int,
) -> bool {
    &&& roster[i].identity.bytes@ != my_id.bytes@
    &&& !listed(reached, roster[i].identity)
    &&& exclude_ip != Some(roster_ipv6[i])
    &&& !offline[i]
}

/// The mesh addresses of the roster entries worth dialing, in roster order.
pub open spec fn absent_ips(
    roster: Seq<Member>,
    roster_ipv6: Seq<u128>,
    my_id: EndpointId,
    exclude_ip: Option<u128>,
    reached: Seq<EndpointId>,
    offline: Seq<bool>,
    n: int,
) -> Seq<u128>
    decreases n,
{
    if n <= 0 {
        Seq::empty()
    } else {
        let earlier = absent_ips(roster, roster_ipv6, my_id, exclude_ip, reached, offline, n - 1);
        if dial_candidate(roster, roster_ipv6, my_id, exclude_ip, reached, offline, n - 1) {
            earlier.push(roster_ipv6[n - 1])
        } else {
            earlier
        }
    }
}

/// The roster members a trigger did not reach over a live connection and that
/// are worth dialing: not us, not the excluded peer, not already reached, and
/// not known-offline. `roster_ipv6[i]` is member `i`'s mesh address and
/// `offline[i]` whether its last dial failed recently.
pub fn absent_member_ips(
    roster: &[Member],
    roster_ipv6: &[u128],
    my_id: EndpointId,
    exclude_ip: Option<u128>,
    reached: &[EndpointId],
    offline: &[bool],
) -> (ips: Vec<u128>)
    requires
        roster_ipv6@.len() == roster@.len(),
        offline@.len() == roster@.len(),
    ensures
        ips@ == absent_ips(
            roster@,
            roster_ipv6@,
            my_id,
            exclude_ip,
            reached@,
            offline@,
            roster@.len() as int,
        ),
{
    let mut ips: Vec<u128> = Vec::new();
    let mut i: usize = 0;
    while i < roster.len()
        invariant
            i <= roster@.len(),
            roster_ipv6@.len() == roster@.len(),
            offline@.len() == roster@.len(),
            ips@ == absent_ips(
                roster@,
                roster_ipv6@,
                my_id,
                exclude_ip,
                reached@,
                offline@,
                i as int,
            ),
        decreases roster@.len() - i,
    {
        let m = &roster[i];
        let v6 = roster_ipv6[i];
        let excluded = match exclude_ip {
            Some(x) => x == v6,
            None => false,
        };
        if !same_identity(&m.identity, &my_id) && !is_listed(reached, &m.identity) && !excluded
            && !offline[i] {
            ips.push(v6);
        }
        i = i + 1;
    }
    ips
}

/// Whether `ip` is the mesh address of a roster entry worth dialing.
pub open spec fn is_dial_candidate_ip(
    roster: Seq<Member>,
    roster_ipv6: Seq<u128>,
    my_id: EndpointId,
    exclude_ip: Option<u128>,
    reached: Seq<EndpointId>,
    offline: Seq<bool>,
    ip: u128,
) -> bool {
    exists|i: int|
        0 <= i < roster.len() && #[trigger] dial_candidate(
            roster,
            roster_ipv6,
            my_id,
            exclude_ip,
            reached,
            offline,
            i,
        ) && roster_ipv6[i] == ip
}

/// Nobody who should be skipped is ever dialed: every address returned is a
/// roster member's that is not us, was not reached, is not the excluded peer
/// and is not known to be offline.
pub proof fn lemma_absent_ips_are_dial_candidates(
    roster: Seq<Member>,
    roster_ipv6: Seq<u128>,
    my_id: EndpointId,
    exclude_ip: Option<u128>,
    reached: Seq<EndpointId>,
    offline: Seq<bool>,
    n: int,
)
    requires
        0 <= n <= roster.len(),
        roster_ipv6.len() == roster.len(),
        offline.len() == roster.len(),
    ensures
        forall|k: int|
            0 <= k < absent_ips(roster, roster_ipv6, my_id, exclude_ip, reached, offline, n).len()
                ==> is_dial_candidate_ip(
                roster,
                roster_ipv6,
                my_id,
                exclude_ip,
                reached,
                offline,
                #[trigger] absent_ips(roster, roster_ipv6, my_id, exclude_ip, reached, offline, n)[k],
            ),
    decreases n,
{
    if n > 0 {
        lemma_absent_ips_are_dial_candidates(
            roster,
            roster_ipv6,
            my_id,
            exclude_ip,
            reached,
            offline,
            n - 1,
        );
        let earlier = absent_ips(roster, roster_ipv6, my_id, exclude_ip, reached, offline, n - 1);
        let all = absent_ips(roster, roster_ipv6, my_id, exclude_ip, reached, offline, n);
        assert forall|k: int| 0 <= k < all.len() implies is_dial_candidate_ip(
            roster,
            roster_ipv6,
            my_id,
            exclude_ip,
            reached,
            offline,
            #[trigger] all[k],
        ) by {
            if k < earlier.len() {
                assert(all[k] == earlier[k]);
            } else {
                assert(dial_candidate(roster, roster_ipv6, my_id, exclude_ip, reached, offline, n - 1));
                assert(all[k] == roster_ipv6[n - 1]);
            }
        }
    }
}

/// Whether roster entry `i` is owed a dial: it is not us, the trigger did
/// not reach it, it is not the excluded address and it is not known offline.
spec fn owed_a_dial(
    roster: Seq<Member>,
    roster_ipv6: Seq<u128>,
    my_id: EndpointId,
    exclude_ip: Option<u128>,
    reached: Seq<EndpointId>,
    offline: Seq<bool>,
    i: int,
) -> bool {
    &&& roster[i].identity.bytes@ != my_id.bytes@
    &&& forall|k: int| 0 <= k < reached.len() ==> reached[k].bytes@ != roster[i].identity.bytes@
    &&& exclude_ip != Some(roster_ipv6[i])
    &&& !offline[i]
}

proof fn lemma_absent_ips_filter(
    roster: Seq<Member>,
    roster_ipv6: Seq<u128>,
    my_id: EndpointId,
    exclude_ip: Option<u128>,
    reached: Seq<EndpointId>,
    offline: Seq<bool>,
    n: int,
)
    requires
        0 <= n <= roster.len(),
        roster_ipv6.len() == roster.len(),
        offline.len() == roster.len(),
    ensures
        absent_ips(roster, roster_ipv6, my_id, exclude_ip, reached, offline, n) == Seq::new(
            n as nat,
            |i: int| i,
        ).filter(
            |i: int| owed_a_dial(roster, roster_ipv6, my_id, exclude_ip, reached, offline, i),
        ).map_values(|i: int| roster_ipv6[i]),
    decreases n,
{
    reveal(Seq::filter);
    let pred = |i: int| owed_a_dial(roster, roster_ipv6, my_id, exclude_ip, reached, offline, i);
    let ids = Seq::new(n as nat, |i: int| i);
    if n == 0 {
        assert(ids.filter(pred) =~= Seq::<int>::empty());
        assert(ids.filter(pred).map_values(|i: int| roster_ipv6[i]) =~= Seq::<u128>::empty());
    } else {
        lemma_absent_ips_filter(roster, roster_ipv6, my_id, exclude_ip, reached, offline, n - 1);
        let prev = Seq::new((n - 1) as nat, |i: int| i);
        assert(ids.drop_last() =~= prev);
        assert(ids.last() == n - 1);
        let earlier = prev.filter(pred);
        assert(pred(n - 1) == dial_candidate(
            roster,
            roster_ipv6,
            my_id,
            exclude_ip,
            reached,
            offline,
            n - 1,
        ));
        if pred(n - 1) {
            assert(ids.filter(pred) == earlier.push(n - 1));
            assert(earlier.push(n - 1).map_values(|i: int| roster_ipv6[i]) =~= earlier.map_values(
                |i: int| roster_ipv6[i],
            ).push(roster_ipv6[n - 1]));
        } else {
            assert(ids.filter(pred) == earlier);
        }
    }
}

/// A membership-sync trigger goes to exactly the roster members it is owed
/// to, in roster order: the addresses returned are those of the roster
/// entries that are not us, were not reached, are not the excluded address
/// and are not known offline, every one of them and no other.
pub proof fn lemma_absent_ips_are_every_owed_member(
    roster: Seq<Member>,
    roster_ipv6: Seq<u128>,
    my_id: EndpointId,
    exclude_ip: Option<u128>,
    reached: Seq<EndpointId>,
    offline: Seq<bool>,
)
    requires
        roster_ipv6.len() == roster.len(),
        offline.len() == roster.len(),
    ensures
        absent_ips(roster, roster_ipv6, my_id, exclude_ip, reached, offline, roster.len() as int)
            == Seq::new(roster.len(), |i: int| i).filter(
            |i: int|
                roster[i].identity.bytes@ != my_id.bytes@ && (forall|k: int|
                    0 <= k < reached.len() ==> reached[k].bytes@ != roster[i].identity.bytes@)
                    && exclude_ip != Some(roster_ipv6[i]) && !offline[i],
        ).map_values(|i: int| roster_ipv6[i]),
        forall|i: int|
            0 <= i < roster.len() && roster[i].identity.bytes@ != my_id.bytes@ && (forall|k: int|
                0 <= k < reached.len() ==> reached[k].bytes@ != roster[i].identity.bytes@)
                && exclude_ip != Some(roster_ipv6[i]) && !offline[i] ==> absent_ips(
                roster,
                roster_ipv6,
                my_id,
                exclude_ip,
                reached,
                offline,
                roster.len() as int,
            ).contains(#[trigger] roster_ipv6[i]),
{
    let n = roster.len() as int;
    lemma_absent_ips_filter(roster, roster_ipv6, my_id, exclude_ip, reached, offline, n);
    let pred = |i: int| owed_a_dial(roster, roster_ipv6, my_id, exclude_ip, reached, offline, i);
    let pred2 = |i: int|
        roster[i].identity.bytes@ != my_id.bytes@ && (forall|k: int|
            0 <= k < reached.len() ==> reached[k].bytes@ != roster[i].identity.bytes@)
            && exclude_ip != Some(roster_ipv6[i]) && !offline[i];
    assert(pred =~= pred2);
    let ids = Seq::new(roster.len(), |i: int| i);
    let out = absent_ips(roster, roster_ipv6, my_id, exclude_ip, reached, offline, n);
    assert forall|i: int|
        0 <= i < roster.len() && roster[i].identity.bytes@ != my_id.bytes@ && (forall|k: int|
            0 <= k < reached.len() ==> reached[k].bytes@ != roster[i].identity.bytes@)
            && exclude_ip != Some(roster_ipv6[i]) && !offline[i] implies out.contains(
        #[trigger] roster_ipv6[i]) by {
        assert(ids[i] == i);
        ids.lemma_filter_contains(pred2, i);
        let f = ids.filter(pred2);
        let k = choose|k: int| 0 <= k < f.len() && f[k] == i;
        assert(out[k] == roster_ipv6[i]);
    }
}

} // verus!
