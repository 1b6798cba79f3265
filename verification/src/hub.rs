//! The state that all connections share.

use crate::names::NameMap;
use crate::sessions::{AuthStore, Sessions};
use crate::trips::{CoordState, TripsStore, UserStatus};
use vstd::prelude::*;

verus! {

/// The sessions, the trips under way, and who is connected where.
pub struct Hub {
    pub auth: AuthStore,
    pub trips: TripsStore,
    pub status: NameMap<UserStatus>,
    /// The number of the connection of each user who is logged in.
    pub online: NameMap<u64>,
}

/// What the hub holds.
#[verifier::ext_equal]
pub struct HubView {
    pub sessions: Sessions,
    pub trips: Map<i64, CoordState>,
    pub status: Map<Seq<char>, UserStatus>,
    pub online: Map<Seq<char>, u64>,
}

impl View for Hub {
    type V = HubView;

    open spec fn view(&self) -> HubView {
        HubView {
            sessions: self.auth@,
            trips: self.trips@,
            status: self.status@,
            online: self.online@,
        }
    }
}

impl Hub {
    pub open spec fn wf(&self) -> bool {
        self.auth.wf() && self.status.wf() && self.online.wf()
    }

    /// On a sound hub no user has two sessions.
    pub proof fn lemma_single_session(&self)
        requires
            self.wf(),
        ensures
            crate::sessions::single_session(self@.sessions),
    {
        self.auth.lemma_single_session();
    }

    /// A hub with nobody on it.
    pub fn new() -> (hub: Self)
        ensures
            hub.wf(),
            hub@ == (HubView {
                sessions: Map::empty(),
                trips: Map::empty(),
                status: Map::empty(),
                online: Map::empty(),
            }),
    {
        Hub {
            auth: AuthStore::new(),
            trips: TripsStore::new(),
            status: NameMap::new(),
            online: NameMap::new(),
        }
    }
}

/// The view of a hub is what it holds.
pub proof fn law_hub_view(hub: Hub)
    ensures
        hub@.sessions == hub.auth@,
        hub@.trips == hub.trips@,
        hub@.status == hub.status@,
        hub@.online == hub.online@,
{
}

}
