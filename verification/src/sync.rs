//! Keeping the cloud-stored host address in step with the machine's public
//! address: the decisions of the repeating query, compare, upload, wait loop.

use vstd::prelude::*;
use crate::address::HostAddr;

verus! {

/// Seconds between two queries of the public address.
pub open spec fn sync_period() -> u64 {
    4
}

/// What the keeper does next.
#[derive(Clone, Copy, Debug, PartialEq, Eq, Structural)]
pub enum SyncAction {
    /// The public address could not be read: query it again at once.
    QueryAgain,
    /// The stored address differs: upload `addr` (its text, see
    /// `address::host_upload_body`), report the outcome with
    /// [`HostSync::upload_finished`], then wait as that says.
    Upload { addr: HostAddr },
    /// The stored address is current: wait `seconds` before the next query.
    Wait { seconds: u64 },
}

/// Whether the stored address `online` has to be replaced by `current`.
pub open spec fn needs_upload(online: Option<HostAddr>, current: HostAddr) -> bool {
    online != Some(current)
}

/// The stored address as the keeper knows it after an upload of `addr`
/// that succeeded or not.
pub open spec fn after_upload(online: Option<HostAddr>, addr: HostAddr, uploaded: bool) -> Option<
    HostAddr,
> {
    if uploaded {
        Some(addr)
    } else {
        online
    }
}

/// The keeper's state: the address it believes the stored object holds.
pub struct HostSync {
    online: Option<HostAddr>,
}

impl View for HostSync {
    type V = Option<HostAddr>;

    closed spec fn view(&self) -> Option<HostAddr> {
        self.online
    }
}

impl HostSync {
    /// Starts from the address downloaded at start-up, if it could be read.
    pub fn new(downloaded: Option<HostAddr>) -> (s: HostSync)
        ensures
            s@ == downloaded,
    {
        HostSync { online: downloaded }
    }

    /// The address the keeper believes is stored.
    pub fn online(&self) -> (res: Option<HostAddr>)
        ensures
            res == self@,
    {
        self.online
    }

    /// Decides what to do with the outcome of a public-address query.
    pub fn observe(&self, current: Option<HostAddr>) -> (action: SyncAction)
        ensures
            action == match current {
                None => SyncAction::QueryAgain,
                Some(addr) => if needs_upload(self@, addr) {
                    SyncAction::Upload { addr }
                } else {
                    SyncAction::Wait { seconds: sync_period() }
                },
            },
    {
        match current {
            None => SyncAction::QueryAgain,
            Some(addr) => {
                let same = match self.online {
                    Some(o) => o == addr,
                    None => false,
                };
                if same {
                    SyncAction::Wait { seconds: 4 }
                } else {
                    SyncAction::Upload { addr }
                }
            },
        }
    }

    /// Records the outcome of an upload of `addr`; returns the seconds to
    /// wait before the next query.
    pub fn upload_finished(&mut self, addr: HostAddr, uploaded: bool) -> (wait: u64)
        ensures
            final(self)@ == after_upload(old(self)@, addr, uploaded),
            wait == sync_period(),
    {
        if uploaded {
            self.online = Some(addr);
        }
        4
    }
}

/// Once an address has been uploaded, seeing it again uploads nothing.
pub proof fn lemma_uploaded_address_is_current(online: Option<HostAddr>, addr: HostAddr)
    ensures
        !needs_upload(after_upload(online, addr, true), addr),
{
}

/// After a successful upload, any other address is uploaded when seen.
pub proof fn lemma_new_address_is_uploaded(
    online: Option<HostAddr>,
    addr: HostAddr,
    next: HostAddr,
)
    ensures
        needs_upload(after_upload(online, addr, true), next) <==> next != addr,
{
}

/// A failed upload changes nothing: the same address is uploaded again when
/// next seen.
pub proof fn lemma_failed_upload_is_retried(online: Option<HostAddr>, addr: HostAddr)
    ensures
        after_upload(online, addr, false) == online,
        needs_upload(online, addr) ==> needs_upload(after_upload(online, addr, false), addr),
{
}

} // verus!
