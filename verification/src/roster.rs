use vstd::prelude::*;

verus! {

/// A node's identity on the mesh: the 32-byte ed25519 public key iroh
/// addresses it by. Its text form is the key in lower-case hex, and its short
/// form the hex of the first five bytes.
#[derive(Debug, Clone, Copy, PartialEq, Eq)]
pub struct EndpointId {
    pub bytes: [u8; 32],
}

/// A roster member as the daemon holds it at runtime.
#[derive(Debug, Clone)]
pub struct Member {
    pub identity: EndpointId,
    pub is_coordinator: bool,
    pub hostname: Option<String>,
    /// The user identity a paired device speaks for (runtime only).
    pub user_identity: Option<EndpointId>,
    /// Whether the member offers an exit node (runtime only).
    pub exit_node: bool,
}

/// A peer approved to join but not yet seated.
#[derive(Debug, Clone)]
pub struct ApprovedEntry {
    pub identity: EndpointId,
    pub hostname: Option<String>,
    /// The user identity a paired device speaks for (runtime only).
    pub user_identity: Option<EndpointId>,
}

/// A roster member in the form the network config persists.
#[derive(Debug, Clone)]
pub struct MemberEntry {
    pub identity: EndpointId,
    pub is_coordinator: bool,
    pub hostname: Option<String>,
}

/// An approved entry in the form the network config persists.
#[derive(Debug, Clone)]
pub struct ApprovedConfigEntry {
    pub identity: EndpointId,
    pub hostname: Option<String>,
}

fn clone_hostname(hostname: &Option<String>) -> (copy: Option<String>)
    ensures
        copy == *hostname,
{
    match hostname {
        Some(h) => Some(h.clone()),
        None => None,
    }
}

/// The persistable form of a member: identity, coordinator flag, hostname.
pub open spec fn member_entry_of(m: Member) -> MemberEntry {
    MemberEntry { identity: m.identity, is_coordinator: m.is_coordinator, hostname: m.hostname }
}

/// The persistable form of an approved entry: identity and hostname.
pub open spec fn approved_entry_of(a: ApprovedEntry) -> ApprovedConfigEntry {
    ApprovedConfigEntry { identity: a.identity, hostname: a.hostname }
}

/// Project a roster's members into the persistable form, in order (drops the
/// runtime-only fields).
pub fn to_member_entries(members: &[Member]) -> (entries: Vec<MemberEntry>)
    ensures
        entries@ == members@.map_values(|m: Member| member_entry_of(m)),
{
    let mut entries: Vec<MemberEntry> = Vec::new();
    let mut i: usize = 0;
    while i < members.len()
        invariant
            i <= members@.len(),
            entries@ == members@.take(i as int).map_values(|m: Member| member_entry_of(m)),
        decreases members@.len() - i,
    {
        let m = &members[i];
        entries.push(
            MemberEntry {
                identity: m.identity,
                is_coordinator: m.is_coordinator,
                hostname: clone_hostname(&m.hostname),
            },
        );
        assert(members@.take(i + 1) =~= members@.take(i as int).push(members@[i as int]));
        i = i + 1;
    }
    assert(members@.take(members@.len() as int) =~= members@);
    entries
}

/// Project approved entries into the persistable form, in order.
pub fn to_approved_entries(approved: &[ApprovedEntry]) -> (entries: Vec<ApprovedConfigEntry>)
    ensures
        entries@ == approved@.map_values(|a: ApprovedEntry| approved_entry_of(a)),
{
    let mut entries: Vec<ApprovedConfigEntry> = Vec::new();
    let mut i: usize = 0;
    while i < approved.len()
        invariant
            i <= approved@.len(),
            entries@ == approved@.take(i as int).map_values(|a: ApprovedEntry| approved_entry_of(a)),
        decreases approved@.len() - i,
    {
        let a = &approved[i];
        entries.push(
            ApprovedConfigEntry { identity: a.identity, hostname: clone_hostname(&a.hostname) },
        );
        assert(approved@.take(i + 1) =~= approved@.take(i as int).push(approved@[i as int]));
        i = i + 1;
    }
    assert(approved@.take(approved@.len() as int) =~= approved@);
    entries
}

/// The value of hex digit `v` (`0..16`) as iroh writes it: lower case.
pub open spec fn hex_digit(v: int) -> char {
    if v < 10 {
        (48 + v) as char
    } else {
        (87 + v) as char
    }
}

/// The `i`-th hex digit of `bytes`, high nibble first.
pub open spec fn nibble(bytes: Seq<u8>, i: int) -> int {
    if i % 2 == 0 {
        (bytes[i / 2] / 16) as int
    } else {
        (bytes[i / 2] % 16) as int
    }
}

/// The text form of an identity: its 32 bytes in lower-case hex.
pub open spec fn identity_text(id: EndpointId) -> Seq<char> {
    Seq::new(64, |i: int| hex_digit(nibble(id.bytes@, i)))
}

/// The short text form of an identity: its first five bytes in lower-case hex.
pub open spec fn identity_short_text(id: EndpointId) -> Seq<char> {
    Seq::new(10, |i: int| hex_digit(nibble(id.bytes@, i)))
}

/// Whether `s` begins with `prefix`.
pub open spec fn starts_with(s: Seq<char>, prefix: Seq<char>) -> bool {
    prefix.len() <= s.len() && s.subrange(0, prefix.len() as int) == prefix
}

fn hex_char(v: u8) -> (c: char)
    requires
        v < 16,
    ensures
        c == hex_digit(v as int),
{
    match v {
        0 => '0',
        1 => '1',
        2 => '2',
        3 => '3',
        4 => '4',
        5 => '5',
        6 => '6',
        7 => '7',
        8 => '8',
        9 => '9',
        10 => 'a',
        11 => 'b',
        12 => 'c',
        13 => 'd',
        14 => 'e',
        _ => 'f',
    }
}

/// Whether the first `width` hex digits of `id` begin with `selector`.
fn hex_starts_with(id: &EndpointId, width: usize, selector: &str) -> (matches: bool)
    requires
        width <= 64,
    ensures
        matches == starts_with(
            Seq::new(width as nat, |i: int| hex_digit(nibble(id.bytes@, i))),
            selector@,
        ),
{
    let ghost text = Seq::new(width as nat, |i: int| hex_digit(nibble(id.bytes@, i)));
    let n = selector.unicode_len();
    if n > width {
        return false;
    }
    let mut i: usize = 0;
    while i < n
        invariant
            n == selector@.len(),
            n <= width <= 64,
            i <= n,
            text == Seq::new(width as nat, |k: int| hex_digit(nibble(id.bytes@, k))),
            forall|k: int| 0 <= k < i ==> text[k] == selector@[k],
        decreases n - i,
    {
        let byte = id.bytes[i / 2];
        let v: u8 = if i % 2 == 0 {
            byte / 16
        } else {
            byte % 16
        };
        if selector.get_char(i) != hex_char(v) {
            assert(text[i as int] != selector@[i as int]);
            return false;
        }
        i = i + 1;
    }
    assert(text.subrange(0, n as int) =~= selector@);
    true
}

/// Whether a candidate's hostname is exactly `selector`.
pub open spec fn hostname_is(candidate: (EndpointId, Option<String>), selector: Seq<char>) -> bool {
    candidate.1 matches Some(h) && h@ == selector
}

/// Whether a candidate's identity, in its full or short text form, begins
/// with `selector`.
pub open spec fn identity_has_prefix(
    candidate: (EndpointId, Option<String>),
    selector: Seq<char>,
) -> bool {
    starts_with(identity_text(candidate.0), selector) || starts_with(
        identity_short_text(candidate.0),
        selector,
    )
}

/// The identities of the candidates whose hostname is `selector`, in order.
pub open spec fn named_exactly(
    candidates: Seq<(EndpointId, Option<String>)>,
    selector: Seq<char>,
) -> Seq<EndpointId>
    decreases candidates.len(),
{
    if candidates.len() == 0 {
        Seq::empty()
    } else {
        let earlier = named_exactly(candidates.drop_last(), selector);
        if hostname_is(candidates.last(), selector) {
            earlier.push(candidates.last().0)
        } else {
            earlier
        }
    }
}

/// The identities of the candidates whose identity begins with `selector`.
pub open spec fn prefixed_by(
    candidates: Seq<(EndpointId, Option<String>)>,
    selector: Seq<char>,
) -> Seq<EndpointId>
    decreases candidates.len(),
{
    if candidates.len() == 0 {
        Seq::empty()
    } else {
        let earlier = prefixed_by(candidates.drop_last(), selector);
        if identity_has_prefix(candidates.last(), selector) {
            earlier.push(candidates.last().0)
        } else {
            earlier
        }
    }
}

/// The identity a selector names among candidates: the single exact hostname
/// match if there is one (two or more is ambiguous), otherwise the single
/// identity it prefixes (none is `None`, several is ambiguous).
pub open spec fn resolved_identity(
    candidates: Seq<(EndpointId, Option<String>)>,
    selector: Seq<char>,
) -> Result<Option<EndpointId>, ()> {
    let names = named_exactly(candidates, selector);
    if names.len() == 1 {
        Ok(Some(names[0]))
    } else if names.len() > 1 {
        Err(())
    } else {
        let ids = prefixed_by(candidates, selector);
        if ids.len() == 0 {
            Ok(None)
        } else if ids.len() == 1 {
            Ok(Some(ids[0]))
        } else {
            Err(())
        }
    }
}

proof fn lemma_no_exact_name(candidates: Seq<(EndpointId, Option<String>)>, selector: Seq<char>)
    requires
        forall|j: int|
            0 <= j < candidates.len() ==> !(#[trigger] candidates[j].1 matches Some(h) && h@
                == selector),
    ensures
        named_exactly(candidates, selector).len() == 0,
    decreases candidates.len(),
{
    if candidates.len() > 0 {
        let rest = candidates.drop_last();
        assert forall|j: int| 0 <= j < rest.len() implies !(#[trigger] rest[j].1 matches Some(h)
            && h@ == selector) by {
            assert(rest[j] == candidates[j]);
        }
        lemma_no_exact_name(rest, selector);
        assert(candidates.last() == candidates[candidates.len() - 1]);
    }
}

proof fn lemma_one_exact_name(
    candidates: Seq<(EndpointId, Option<String>)>,
    selector: Seq<char>,
    i: int,
)
    requires
        0 <= i < candidates.len(),
        candidates[i].1 matches Some(h) && h@ == selector,
        forall|j: int|
            0 <= j < candidates.len() && j != i ==> !(#[trigger] candidates[j].1 matches Some(h)
                && h@ == selector),
    ensures
        named_exactly(candidates, selector) == seq![candidates[i].0],
    decreases candidates.len(),
{
    let rest = candidates.drop_last();
    let last = candidates.len() - 1;
    assert(candidates.last() == candidates[last]);
    if i == last {
        assert forall|j: int| 0 <= j < rest.len() implies !(#[trigger] rest[j].1 matches Some(h)
            && h@ == selector) by {
            assert(rest[j] == candidates[j]);
        }
        lemma_no_exact_name(rest, selector);
        assert(named_exactly(rest, selector) =~= Seq::<EndpointId>::empty());
        assert(named_exactly(candidates, selector) =~= seq![candidates[i].0]);
    } else {
        assert(rest[i] == candidates[i]);
        assert forall|j: int| 0 <= j < rest.len() && j != i implies !(
        #[trigger] rest[j].1 matches Some(h) && h@ == selector) by {
            assert(rest[j] == candidates[j]);
        }
        lemma_one_exact_name(rest, selector, i);
    }
}

proof fn lemma_named_at_least(
    candidates: Seq<(EndpointId, Option<String>)>,
    selector: Seq<char>,
    i: int,
    j: int,
)
    requires
        0 <= i < candidates.len(),
        i <= j < candidates.len(),
        candidates[i].1 matches Some(h) && h@ == selector,
        candidates[j].1 matches Some(h) && h@ == selector,
    ensures
        named_exactly(candidates, selector).len() >= (if i == j {
            1int
        } else {
            2int
        }),
    decreases candidates.len(),
{
    let rest = candidates.drop_last();
    let last = candidates.len() - 1;
    assert(candidates.last() == candidates[last]);
    if j == last {
        if i < j {
            assert(rest[i] == candidates[i]);
            lemma_named_at_least(rest, selector, i, i);
        }
    } else {
        assert(rest[i] == candidates[i]);
        assert(rest[j] == candidates[j]);
        lemma_named_at_least(rest, selector, i, j);
    }
}

spec fn named_by(candidates: Seq<(EndpointId, Option<String>)>, selector: Seq<char>, id: EndpointId) -> bool {
    exists|j: int|
        0 <= j < candidates.len() && candidates[j].0 == id && (#[trigger] candidates[j].1 matches Some(
            h,
        ) && h@ == selector)
}

spec fn prefixed_id(candidates: Seq<(EndpointId, Option<String>)>, selector: Seq<char>, id: EndpointId) -> bool {
    exists|j: int|
        0 <= j < candidates.len() && #[trigger] candidates[j].0 == id && (starts_with(
            identity_text(id),
            selector,
        ) || starts_with(identity_short_text(id), selector))
}

proof fn lemma_named_are_named(candidates: Seq<(EndpointId, Option<String>)>, selector: Seq<char>)
    ensures
        forall|k: int|
            0 <= k < named_exactly(candidates, selector).len() ==> named_by(
                candidates,
                selector,
                #[trigger] named_exactly(candidates, selector)[k],
            ),
    decreases candidates.len(),
{
    if candidates.len() > 0 {
        let rest = candidates.drop_last();
        lemma_named_are_named(rest, selector);
        let last = candidates.len() - 1;
        assert(candidates.last() == candidates[last]);
        let all = named_exactly(candidates, selector);
        let earlier = named_exactly(rest, selector);
        assert forall|k: int| 0 <= k < all.len() implies named_by(candidates, selector, #[trigger] all[k]) by {
            if k < earlier.len() {
                assert(all[k] == earlier[k]);
                assert(named_by(rest, selector, earlier[k]));
                let j = choose|j: int|
                    0 <= j < rest.len() && rest[j].0 == earlier[k] && (#[trigger] rest[j].1 matches Some(
                        h,
                    ) && h@ == selector);
                assert(rest[j] == candidates[j]);
            } else {
                assert(all[k] == candidates[last].0);
                assert(candidates[last].1 matches Some(h) && h@ == selector);
            }
        }
    }
}

proof fn lemma_prefixed_are_prefixed(candidates: Seq<(EndpointId, Option<String>)>, selector: Seq<char>)
    ensures
        forall|k: int|
            0 <= k < prefixed_by(candidates, selector).len() ==> prefixed_id(
                candidates,
                selector,
                #[trigger] prefixed_by(candidates, selector)[k],
            ),
    decreases candidates.len(),
{
    if candidates.len() > 0 {
        let rest = candidates.drop_last();
        lemma_prefixed_are_prefixed(rest, selector);
        let last = candidates.len() - 1;
        assert(candidates.last() == candidates[last]);
        let all = prefixed_by(candidates, selector);
        let earlier = prefixed_by(rest, selector);
        assert forall|k: int| 0 <= k < all.len() implies prefixed_id(candidates, selector, #[trigger] all[k]) by {
            if k < earlier.len() {
                assert(all[k] == earlier[k]);
                assert(prefixed_id(rest, selector, earlier[k]));
                let j = choose|j: int|
                    0 <= j < rest.len() && #[trigger] rest[j].0 == earlier[k] && (starts_with(
                        identity_text(earlier[k]),
                        selector,
                    ) || starts_with(identity_short_text(earlier[k]), selector));
                assert(rest[j] == candidates[j]);
            } else {
                assert(all[k] == candidates[last].0);
            }
        }
    }
}

proof fn lemma_no_prefix(candidates: Seq<(EndpointId, Option<String>)>, selector: Seq<char>)
    requires
        forall|j: int|
            0 <= j < candidates.len() ==> !(starts_with(identity_text(#[trigger] candidates[j].0), selector)
                || starts_with(identity_short_text(candidates[j].0), selector)),
    ensures
        prefixed_by(candidates, selector).len() == 0,
    decreases candidates.len(),
{
    if candidates.len() > 0 {
        let rest = candidates.drop_last();
        assert forall|j: int| 0 <= j < rest.len() implies !(starts_with(
            identity_text(#[trigger] rest[j].0),
            selector,
        ) || starts_with(identity_short_text(rest[j].0), selector)) by {
            assert(rest[j] == candidates[j]);
        }
        lemma_no_prefix(rest, selector);
        assert(candidates.last() == candidates[candidates.len() - 1]);
    }
}

proof fn lemma_one_prefix(candidates: Seq<(EndpointId, Option<String>)>, selector: Seq<char>, i: int)
    requires
        0 <= i < candidates.len(),
        starts_with(identity_text(candidates[i].0), selector) || starts_with(
            identity_short_text(candidates[i].0),
            selector,
        ),
        forall|j: int|
            0 <= j < candidates.len() && j != i ==> !(starts_with(
                identity_text(#[trigger] candidates[j].0),
                selector,
            ) || starts_with(identity_short_text(candidates[j].0), selector)),
    ensures
        prefixed_by(candidates, selector) == seq![candidates[i].0],
    decreases candidates.len(),
{
    let rest = candidates.drop_last();
    let last = candidates.len() - 1;
    assert(candidates.last() == candidates[last]);
    if i == last {
        assert forall|j: int| 0 <= j < rest.len() implies !(starts_with(
            identity_text(#[trigger] rest[j].0),
            selector,
        ) || starts_with(identity_short_text(rest[j].0), selector)) by {
            assert(rest[j] == candidates[j]);
        }
        lemma_no_prefix(rest, selector);
        assert(prefixed_by(rest, selector) =~= Seq::<EndpointId>::empty());
        assert(prefixed_by(candidates, selector) =~= seq![candidates[i].0]);
    } else {
        assert(rest[i] == candidates[i]);
        assert forall|j: int| 0 <= j < rest.len() && j != i implies !(starts_with(
            identity_text(#[trigger] rest[j].0),
            selector,
        ) || starts_with(identity_short_text(rest[j].0), selector)) by {
            assert(rest[j] == candidates[j]);
        }
        lemma_one_prefix(rest, selector, i);
    }
}

/// With no hostname equal to the selector, the identities decide: a
/// selector that begins exactly one candidate's identity (full or short
/// text) names that candidate, and one that begins none names nobody.
pub proof fn lemma_identity_prefix_decides_without_a_name(
    candidates: Seq<(EndpointId, Option<String>)>,
    selector: Seq<char>,
    i: int,
)
    requires
        0 <= i < candidates.len(),
        forall|k: int|
            0 <= k < candidates.len() ==> !(#[trigger] candidates[k].1 matches Some(h) && h@
                == selector),
    ensures
        (forall|j: int|
            0 <= j < candidates.len() ==> !(starts_with(identity_text(#[trigger] candidates[j].0), selector)
                || starts_with(identity_short_text(candidates[j].0), selector)))
            ==> resolved_identity(candidates, selector) == Ok::<Option<EndpointId>, ()>(None),
        (starts_with(identity_text(candidates[i].0), selector) || starts_with(
            identity_short_text(candidates[i].0),
            selector,
        )) && (forall|j: int|
            0 <= j < candidates.len() && j != i ==> !(starts_with(
                identity_text(#[trigger] candidates[j].0),
                selector,
            ) || starts_with(identity_short_text(candidates[j].0), selector)))
            ==> resolved_identity(candidates, selector) == Ok::<Option<EndpointId>, ()>(
            Some(candidates[i].0),
        ),
{
    lemma_no_exact_name(candidates, selector);
    if forall|j: int|
        0 <= j < candidates.len() ==> !(starts_with(identity_text(#[trigger] candidates[j].0), selector)
            || starts_with(identity_short_text(candidates[j].0), selector)) {
        lemma_no_prefix(candidates, selector);
    }
    if (starts_with(identity_text(candidates[i].0), selector) || starts_with(
        identity_short_text(candidates[i].0),
        selector,
    )) && (forall|j: int|
        0 <= j < candidates.len() && j != i ==> !(starts_with(
            identity_text(#[trigger] candidates[j].0),
            selector,
        ) || starts_with(identity_short_text(candidates[j].0), selector))) {
        lemma_one_prefix(candidates, selector, i);
    }
}

/// A selector equal to one candidate's hostname names that candidate,
/// whatever other hostnames or identities begin with it; equal to two or
/// more hostnames it is ambiguous. Whatever a selector resolves to is a
/// candidate whose hostname is exactly the selector, or, when no hostname
/// is, one whose identity (full or short text) begins with it.
pub proof fn lemma_exact_hostname_wins(
    candidates: Seq<(EndpointId, Option<String>)>,
    selector: Seq<char>,
    i: int,
    j: int,
)
    requires
        0 <= i < candidates.len(),
        0 <= j < candidates.len(),
    ensures
        (candidates[i].1 matches Some(h) && h@ == selector) && (forall|k: int|
            0 <= k < candidates.len() && k != i ==> !(#[trigger] candidates[k].1 matches Some(h)
                && h@ == selector)) ==> resolved_identity(candidates, selector) == Ok::<
            Option<EndpointId>,
            (),
        >(Some(candidates[i].0)),
        i != j && (candidates[i].1 matches Some(h) && h@ == selector) && (
        candidates[j].1 matches Some(h) && h@ == selector) ==> resolved_identity(
            candidates,
            selector,
        ) is Err,
        resolved_identity(candidates, selector) matches Ok(Some(id)) ==> exists|k: int|
            0 <= k < candidates.len() && candidates[k].0 == id && ((candidates[k].1 matches Some(
                h,
            ) && h@ == selector) || ((forall|m: int|
                0 <= m < candidates.len() ==> !(#[trigger] candidates[m].1 matches Some(h) && h@
                    == selector)) && (starts_with(identity_text(id), selector) || starts_with(
                identity_short_text(id),
                selector,
            )))),
{
    if (candidates[i].1 matches Some(h) && h@ == selector) && (forall|k: int|
        0 <= k < candidates.len() && k != i ==> !(#[trigger] candidates[k].1 matches Some(h)
            && h@ == selector)) {
        lemma_one_exact_name(candidates, selector, i);
    }
    if i != j && (candidates[i].1 matches Some(h) && h@ == selector) && (
    candidates[j].1 matches Some(h) && h@ == selector) {
        if i < j {
            lemma_named_at_least(candidates, selector, i, j);
        } else {
            lemma_named_at_least(candidates, selector, j, i);
        }
    }
    lemma_named_are_named(candidates, selector);
    lemma_prefixed_are_prefixed(candidates, selector);
    if let Ok(Some(id)) = resolved_identity(candidates, selector) {
        let names = named_exactly(candidates, selector);
        if names.len() == 1 {
            assert(names[0] == id);
            assert(named_by(candidates, selector, names[0]));
        } else {
            let ids = prefixed_by(candidates, selector);
            assert(ids[0] == id);
            assert(prefixed_id(candidates, selector, ids[0]));
            assert forall|m: int| 0 <= m < candidates.len() implies !(
            #[trigger] candidates[m].1 matches Some(h) && h@ == selector) by {
                if candidates[m].1 matches Some(h) && h@ == selector {
                    lemma_named_at_least(candidates, selector, m, m);
                }
            }
        }
    }
}

/// Resolve an exact hostname or an unambiguous identity prefix from a small
/// user-visible queue. Exact names win, which keeps a hostname made only of
/// hex digits usable even when it also happens to prefix an identity.
/// `Err(())` when the selector is ambiguous.
pub fn resolve_named_identity(
    selector: &str,
    candidates: &[(EndpointId, Option<String>)],
) -> (resolved: Result<Option<EndpointId>, ()>)
    ensures
        resolved == resolved_identity(candidates@, selector@),
{
    let wanted = String::from_str(selector);
    let mut names: Vec<EndpointId> = Vec::new();
    let mut i: usize = 0;
    while i < candidates.len()
        invariant
            i <= candidates@.len(),
            wanted@ == selector@,
            names@ == named_exactly(candidates@.take(i as int), selector@),
        decreases candidates@.len() - i,
    {
        let (identity, hostname) = &candidates[i];
        assert(candidates@.take(i + 1).drop_last() =~= candidates@.take(i as int));
        let is_name = match hostname {
            Some(h) => *h == wanted,
            None => false,
        };
        if is_name {
            names.push(*identity);
        }
        i = i + 1;
    }
    assert(candidates@.take(candidates@.len() as int) =~= candidates@);
    if names.len() == 1 {
        return Ok(Some(names[0]));
    } else if names.len() > 1 {
        return Err(());
    }
    let mut identities: Vec<EndpointId> = Vec::new();
    let mut j: usize = 0;
    while j < candidates.len()
        invariant
            j <= candidates@.len(),
            identities@ == prefixed_by(candidates@.take(j as int), selector@),
        decreases candidates@.len() - j,
    {
        let (identity, _hostname) = &candidates[j];
        assert(candidates@.take(j + 1).drop_last() =~= candidates@.take(j as int));
        if hex_starts_with(identity, 64, selector) || hex_starts_with(identity, 10, selector) {
            identities.push(*identity);
        }
        j = j + 1;
    }
    if identities.len() == 0 {
        Ok(None)
    } else if identities.len() == 1 {
        Ok(Some(identities[0]))
    } else {
        Err(())
    }
}

/// What a node runs as on a network.
#[derive(Debug, Clone, Copy, PartialEq, Eq, Structural)]
pub enum NetworkRole {
    Coordinator,
    Member,
}

impl NetworkRole {
    pub fn is_coordinator(&self) -> (coordinator: bool)
        ensures
            coordinator <==> *self == NetworkRole::Coordinator,
    {
        matches!(self, NetworkRole::Coordinator)
    }
}

/// The role a node runs as on a network depending on whether it holds the
/// network's secret key.
pub open spec fn key_holder_role(holds_network_key: bool) -> NetworkRole {
    if holds_network_key {
        NetworkRole::Coordinator
    } else {
        NetworkRole::Member
    }
}

/// Whether a network running in `current` role still has to be promoted.
pub open spec fn needs_promotion(current: NetworkRole) -> bool {
    current != NetworkRole::Coordinator
}

/// Map key-holding status to a role: a node that holds the per-network secret
/// key (the founding coordinator or one promoted by an admin grant) runs as
/// `Coordinator`; every other node runs as `Member`.
pub fn role_for_key_holder(holds_network_key: bool) -> (role: NetworkRole)
    ensures
        role == key_holder_role(holds_network_key),
{
    if holds_network_key {
        NetworkRole::Coordinator
    } else {
        NetworkRole::Member
    }
}

/// Whether a network in `current` role should be (re-)registered as
/// coordinator: a promoted member must swap handlers; a coordinator is a no-op.
pub fn should_promote(current: NetworkRole) -> (promote: bool)
    ensures
        promote == needs_promotion(current),
{
    !current.is_coordinator()
}

/// Holding the network key is what makes a node a coordinator, and promotion
/// is idempotent: a key holder's role needs no promotion, a node without the
/// key is always a candidate, and promoting (running as coordinator) leaves
/// nothing further to promote.
pub proof fn lemma_promotion_follows_key(holds_network_key: bool)
    ensures
        (key_holder_role(holds_network_key) == NetworkRole::Coordinator) == holds_network_key,
        needs_promotion(key_holder_role(holds_network_key)) == !holds_network_key,
        !needs_promotion(key_holder_role(true)),
{
}

/// The ed25519 public key (its 32-byte compressed encoding) that the 32-byte
/// secret key `secret` derives.
pub uninterp spec fn ed25519_public_key(secret: Seq<u8>) -> Seq<u8>;

/// `iroh::SecretKey::from(secret).public()`: the public key of a secret key,
/// as its 32 bytes. A deterministic function of the secret alone.
#[verifier::external_body]
fn public_key_of_secret(secret: [u8; 32]) -> (public: [u8; 32])
    ensures
        public@ == ed25519_public_key(secret@),
{
    *iroh::SecretKey::from(secret).public().as_bytes()
}

/// Whether an admin grant's key is genuinely this network's key: its public
/// half must equal the network public key. A forged grant, carrying any key
/// but the real secret, is refused without a roster lookup.
pub fn admin_grant_key_valid(secret_key: [u8; 32], net_pubkey: EndpointId) -> (valid: bool)
    ensures
        valid <==> ed25519_public_key(secret_key@) == net_pubkey.bytes@,
{
    let public = public_key_of_secret(secret_key);
    let mut i: usize = 0;
    while i < 32
        invariant
            i <= 32,
            public@ == ed25519_public_key(secret_key@),
            forall|k: int| 0 <= k < i ==> public@[k] == net_pubkey.bytes@[k],
        decreases 32 - i,
    {
        if public[i] != net_pubkey.bytes[i] {
            return false;
        }
        i = i + 1;
    }
    assert(public@ =~= net_pubkey.bytes@);
    true
}

} // verus!
