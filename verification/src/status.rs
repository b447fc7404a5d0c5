//! Device health: the status a device gets after a ping, and what follows
//! from a change of status.

use vstd::prelude::*;

use crate::register::{id_values, make_id, make_id_spec, IdRegister, RegisterValueStorage, Timestamp};

verus! {

/// Health of a device.
#[derive(Clone, Copy, Debug, PartialEq, Eq, Structural)]
pub enum DeviceStatus {
    Healthy,
    Unreachable,
    Inactive,
}

/// What a ping leads to.
#[derive(Clone, Copy, Debug, PartialEq, Eq, Structural)]
pub struct Consolidation {
    /// The device's new status.
    pub status: DeviceStatus,
    /// When the device was last seen.
    pub seen: Timestamp,
    /// True when the status changed, so that a health record is written.
    pub update: bool,
    /// True when the device just became inactive, so that its reads stop;
    /// otherwise the device stays bound to its destination.
    pub remove: bool,
}

/// What a ping leads to: a device that answered is healthy and seen now; a
/// device that did not answer is inactive once it has not been seen for
/// longer than the inactivity timeout, and unreachable before that.
pub open spec fn consolidate_spec(
    pinged: bool,
    previous: DeviceStatus,
    seen: Timestamp,
    now: Timestamp,
    unseen_for: i128,
    inactive_timeout: i128,
) -> Consolidation {
    let status = if pinged {
        DeviceStatus::Healthy
    } else if unseen_for > inactive_timeout {
        DeviceStatus::Inactive
    } else {
        DeviceStatus::Unreachable
    };
    Consolidation {
        status,
        seen: if pinged {
            now
        } else {
            seen
        },
        update: previous != status,
        remove: status == DeviceStatus::Inactive && previous != DeviceStatus::Inactive,
    }
}

/// What a ping leads to (see [`consolidate_spec`]); `unseen_for` is the time
/// since the device was last seen and `inactive_timeout` the inactivity
/// timeout, both in the same unit.
pub fn consolidate_status(
    pinged: bool,
    previous: DeviceStatus,
    seen: Timestamp,
    now: Timestamp,
    unseen_for: i128,
    inactive_timeout: i128,
) -> (c: Consolidation)
    ensures
        c == consolidate_spec(pinged, previous, seen, now, unseen_for, inactive_timeout),
{
    let status = if pinged {
        DeviceStatus::Healthy
    } else if unseen_for > inactive_timeout {
        DeviceStatus::Inactive
    } else {
        DeviceStatus::Unreachable
    };
    Consolidation {
        status,
        seen: if pinged {
            now
        } else {
            seen
        },
        update: previous != status,
        remove: status == DeviceStatus::Inactive && previous != DeviceStatus::Inactive,
    }
}

/// Law: a device that answers a ping is healthy and seen at the time of the
/// ping, and is never removed.
pub proof fn law_pinged_is_healthy(
    previous: DeviceStatus,
    seen: Timestamp,
    now: Timestamp,
    unseen_for: i128,
    inactive_timeout: i128,
)
    ensures
        consolidate_spec(true, previous, seen, now, unseen_for, inactive_timeout).status
            == DeviceStatus::Healthy,
        consolidate_spec(true, previous, seen, now, unseen_for, inactive_timeout).seen == now,
        !consolidate_spec(true, previous, seen, now, unseen_for, inactive_timeout).remove,
{
}

/// Law: a device is removed only on a change of status, and a status change
/// is reported once: consolidating again with the status just reached
/// reports no change and removes nothing.
pub proof fn law_status_change_reported_once(
    pinged: bool,
    previous: DeviceStatus,
    seen: Timestamp,
    now: Timestamp,
    unseen_for: i128,
    inactive_timeout: i128,
)
    ensures
        consolidate_spec(pinged, previous, seen, now, unseen_for, inactive_timeout).remove
            ==> consolidate_spec(pinged, previous, seen, now, unseen_for, inactive_timeout).update,
        ({
            let first = consolidate_spec(pinged, previous, seen, now, unseen_for, inactive_timeout);
            let second = consolidate_spec(pinged, first.status, seen, now, unseen_for, inactive_timeout);
            !second.update && !second.remove && second.status == first.status
        }),
{
}

/// Whether a ping found the device: its id registers were read and give
/// back its id.
pub fn ping_matches(
    id: &String,
    kind: &String,
    read: &Option<Vec<IdRegister<RegisterValueStorage>>>,
) -> (r: bool)
    requires
        read matches Some(ids) ==> forall|i: int| 0 <= i < ids@.len() ==> #[trigger] ids@[i].storage.wf(),
    ensures
        r == match read {
            Some(ids) => make_id_spec(kind@, id_values(ids@)) == id@,
            None => false,
        },
{
    match read {
        Some(ids) => {
            let made = make_id(kind, ids);
            made == *id
        },
        None => false,
    }
}

} // verus!
