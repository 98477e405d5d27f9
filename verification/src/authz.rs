use vstd::prelude::*;

verus! {

/// Who is on the other end of the IPC socket, as the platform reports it.
#[derive(Clone, Debug)]
pub enum PeerIdentity {
    /// A Unix peer, by its socket credentials.
    Unix { uid: u32, gid: u32 },
    /// A Windows peer, by its SID and privileges.
    Windows { sid: String, is_local_system: bool, is_elevated_admin: bool },
}

/// Who asked for a diagnostics bundle, in whatever form the platform can hand
/// a file to: chowned on Unix, granted read by SID on Windows.
#[derive(Clone, Debug)]
pub enum ReportRequester {
    Unix { uid: u32, gid: u32 },
    Windows { sid: String },
}

/// The Windows authorization rule: a known caller that is LocalSystem, an
/// elevated administrator, or the stored operator (by SID).
pub open spec fn windows_authorized(peer: Option<PeerIdentity>, operator: Option<Seq<char>>) -> bool {
    match peer {
        Some(PeerIdentity::Windows { sid, is_local_system, is_elevated_admin }) => {
            ||| is_local_system
            ||| is_elevated_admin
            ||| operator == Some(sid@)
        },
        _ => false,
    }
}

/// Whether a Windows IPC caller may run mutating commands. Fails closed: an
/// unknown caller (or one that is not a Windows peer) is refused; LocalSystem,
/// an elevated administrator and the stored operator are each enough alone.
pub fn windows_peer_authorized(peer: Option<&PeerIdentity>, operator: Option<&str>) -> (authorized:
    bool)
    ensures
        authorized == windows_authorized(
            match peer {
                Some(p) => Some(*p),
                None => None,
            },
            match operator {
                Some(o) => Some(o@),
                None => None,
            },
        ),
{
    match peer {
        Some(PeerIdentity::Windows { sid, is_local_system, is_elevated_admin }) => {
            if *is_local_system || *is_elevated_admin {
                return true;
            }
            match operator {
                Some(op) => {
                    let op_owned = String::from_str(op);
                    op_owned == *sid
                },
                None => false,
            }
        },
        _ => false,
    }
}

impl PeerIdentity {
    /// The caller's Unix credentials `(uid, gid)`; `None` off Unix.
    pub fn unix_cred(&self) -> (cred: Option<(u32, u32)>)
        ensures
            cred == (match *self {
                PeerIdentity::Unix { uid, gid } => Some((uid, gid)),
                PeerIdentity::Windows { .. } => None,
            }),
    {
        match self {
            PeerIdentity::Unix { uid, gid } => Some((*uid, *gid)),
            PeerIdentity::Windows { .. } => None,
        }
    }

    /// This caller in the form the diagnostics bundle is opened to.
    pub fn report_requester(&self) -> (requester: ReportRequester)
        ensures
            requester == (match *self {
                PeerIdentity::Unix { uid, gid } => ReportRequester::Unix { uid, gid },
                PeerIdentity::Windows { sid, .. } => ReportRequester::Windows { sid },
            }),
    {
        match self {
            PeerIdentity::Unix { uid, gid } => ReportRequester::Unix { uid: *uid, gid: *gid },
            PeerIdentity::Windows { sid, .. } => ReportRequester::Windows { sid: sid.clone() },
        }
    }
}

/// The authorization fails closed: with no identity for the caller nothing is
/// authorized, and a caller that is neither privileged nor the operator is
/// refused even when no operator is stored.
pub proof fn lemma_windows_authorization_fails_closed(
    peer: Option<PeerIdentity>,
    operator: Option<Seq<char>>,
)
    ensures
        peer is None ==> !windows_authorized(peer, operator),
        (peer matches Some(PeerIdentity::Windows { is_local_system, is_elevated_admin, .. })
            && !is_local_system && !is_elevated_admin && operator is None) ==> !windows_authorized(
            peer,
            operator,
        ),
{
}

} // verus!
