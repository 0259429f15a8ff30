use vstd::prelude::*;

use crate::rejection::Rejection;
use crate::table::ClientSeconds;
use crate::types::{ClientData, ClientRecord};

verus! {

/// What a request for access gives: its answer and the table of open
/// connections after it. A client that the store knows, that has seconds
/// left and whose connection is not open yet has it opened with all its
/// seconds; any other request is refused and changes nothing.
pub open spec fn access_outcome(active: Map<Seq<char>, i32>, client: Option<ClientRecord>) -> (
    Result<(), Rejection>,
    Map<Seq<char>, i32>,
) {
    match client {
        None => (Err(Rejection::UnknownClient), active),
        Some(c) => if c.remaining_seconds <= 0 {
            (Err(Rejection::NoRemainingSeconds), active)
        } else if active.contains_key(c.mac@) {
            (Err(Rejection::AlreadyActive), active)
        } else {
            (Ok(()), active.insert(c.mac@, c.remaining_seconds))
        },
    }
}

/// What a pause gives: an open connection is closed; pausing a connection
/// that is not open is refused and changes nothing.
pub open spec fn pause_outcome(active: Map<Seq<char>, i32>, mac: Seq<char>) -> (
    Result<(), Rejection>,
    Map<Seq<char>, i32>,
) {
    if active.contains_key(mac) {
        (Ok(()), active.remove(mac))
    } else {
        (Err(Rejection::NotActive), active)
    }
}

/// Decides a request for access by the client that the store holds for the
/// session (`None` where it holds none), and opens the connection when it is
/// granted. The caller then authorises the session's MAC address at the
/// gateway.
pub fn request_access(active: &mut ClientSeconds, client: Option<ClientRecord>) -> (r: Result<(), Rejection>)
    ensures
        (r, final(active)@) == access_outcome(old(active)@, client),
{
    match client {
        None => Err(Rejection::UnknownClient),
        Some(c) => {
            if c.remaining_seconds <= 0 {
                return Err(Rejection::NoRemainingSeconds);
            }
            if active.contains_key(c.mac.as_str()) {
                return Err(Rejection::AlreadyActive);
            }
            let seconds = c.remaining_seconds;
            active.insert(c.mac, seconds);
            Ok(())
        },
    }
}

/// Decides a pause of the connection of `mac`, and closes it when it is
/// open. The caller then ends the connection at the gateway.
pub fn pause(active: &mut ClientSeconds, mac: &str) -> (r: Result<(), Rejection>)
    ensures
        (r, final(active)@) == pause_outcome(old(active)@, mac@),
{
    if !active.contains_key(mac) {
        return Err(Rejection::NotActive);
    }
    active.remove(mac);
    Ok(())
}

/// A request that only an administrator may make: the session must carry the
/// administrator mark, whatever its value.
pub fn require_admin(session_admin: Option<bool>) -> (r: Result<(), Rejection>)
    ensures
        r == (if session_admin is Some {
            Ok(())
        } else {
            Err(Rejection::NotAdmin)
        }),
{
    match session_admin {
        Some(_) => Ok(()),
        None => Err(Rejection::NotAdmin),
    }
}

/// Whether the administrator page is served: the session carries the
/// administrator mark, or the store lists the session's MAC address as an
/// administrator's (`listed_admin`, looked up only where the mark is
/// missing).
pub fn admin_access(session_admin: Option<bool>, listed_admin: bool) -> (r: Result<(), Rejection>)
    ensures
        r == (if session_admin is Some || listed_admin {
            Ok(())
        } else {
            Err(Rejection::NotAdmin)
        }),
{
    if session_admin.is_some() || listed_admin {
        Ok(())
    } else {
        Err(Rejection::NotAdmin)
    }
}

/// What a client is shown of its account, with `active` telling whether the
/// connection of `mac` is open.
pub open spec fn shown_data(client: ClientRecord, mac: Seq<char>, active: Map<Seq<char>, i32>) -> ClientData {
    ClientData {
        id: client.id,
        mac: client.mac,
        credits: client.credits,
        remaining_seconds: client.remaining_seconds,
        active: active.contains_key(mac),
    }
}

/// The account data of the session: refused as not found where the session
/// has no MAC address or the store holds no client for it. Whether the
/// connection is open is looked up by the session's MAC address.
pub fn data(session_mac: Option<&str>, client: Option<ClientRecord>, active: &ClientSeconds) -> (r: Result<ClientData, Rejection>)
    ensures
        r == (match (session_mac, client) {
            (Some(m), Some(c)) => Ok(shown_data(c, m@, active@)),
            _ => Err(Rejection::NotFound),
        }),
{
    match session_mac {
        None => Err(Rejection::NotFound),
        Some(mac) => match client {
            None => Err(Rejection::NotFound),
            Some(c) => {
                let is_active = active.contains_key(mac);
                Ok(ClientData {
                    id: c.id,
                    mac: c.mac,
                    credits: c.credits,
                    remaining_seconds: c.remaining_seconds,
                    active: is_active,
                })
            },
        },
    }
}

/// One item of the account stream: the client as the store holds it, with
/// whether the connection of the client's own MAC address is open.
pub fn client_snapshot(client: ClientRecord, active: &ClientSeconds) -> (r: ClientData)
    ensures
        r == shown_data(client, client.mac@, active@),
{
    let is_active = active.contains_key(client.mac.as_str());
    ClientData {
        id: client.id,
        mac: client.mac,
        credits: client.credits,
        remaining_seconds: client.remaining_seconds,
        active: is_active,
    }
}

/// A client that the store is to create.
pub struct NewClient {
    pub mac: String,
    pub credits: i32,
    pub remaining_seconds: i32,
}

/// What the landing page does besides serving the page: the session is
/// marked as an administrator's where the store lists its MAC address as
/// one, and a client with no credit and no second is created for the MAC
/// address where the store holds none.
pub struct LandingPlan {
    pub mark_admin: bool,
    pub create: Option<NewClient>,
}

/// Whether the landing page creates a client: exactly where the store holds
/// none for the MAC address.
pub open spec fn landing_creates(client_known: bool) -> bool {
    !client_known
}

/// The MAC addresses for which the store holds a client after a visit to
/// the landing page by `mac`, where it held `store` before.
pub open spec fn clients_after_landing(store: Set<Seq<char>>, mac: Seq<char>) -> Set<Seq<char>> {
    if landing_creates(store.contains(mac)) {
        store.insert(mac)
    } else {
        store
    }
}

/// Decides what the landing page does for `mac`, given whether the store
/// lists it as an administrator's and whether it holds a client for it.
pub fn index(mac: String, listed_admin: bool, client_known: bool) -> (r: LandingPlan)
    ensures
        r.mark_admin == listed_admin,
        r.create is Some <==> landing_creates(client_known),
        r.create matches Some(n) ==> n.mac@ == mac@ && n.credits == 0 && n.remaining_seconds == 0,
{
    let create = if client_known {
        None
    } else {
        Some(NewClient { mac, credits: 0, remaining_seconds: 0 })
    };
    LandingPlan { mark_admin: listed_admin, create }
}

} // verus!
