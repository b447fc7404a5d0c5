//! How the gateway stores a device it found: the columns that hold its
//! destination, and the row of a new device.

use vstd::prelude::*;

use crate::connection::{Destination, Device};
use crate::register::Timestamp;
use crate::status::DeviceStatus;
use crate::text::copy_string;

verus! {

/// The slave number as the database stores it.
pub fn to_db_slave(slave: Option<u8>) -> (r: Option<i32>)
    ensures
        r == match slave {
            Some(s) => Some(s as i32),
            None => None::<i32>,
        },
{
    match slave {
        Some(s) => Some(s as i32),
        None => None,
    }
}

/// The columns that hold a destination: the socket address of a TCP
/// server, or the path and baud rate of a serial one, and the slave.
#[derive(Debug)]
pub struct DestinationColumns {
    pub address: Option<String>,
    pub path: Option<String>,
    pub baud_rate: Option<i32>,
    pub slave: Option<i32>,
}

/// True when `c` holds the destination `d`.
pub open spec fn columns_of(c: DestinationColumns, d: Destination) -> bool {
    &&& match d.address {
        Device::Tcp(address) => {
            &&& c.address matches Some(a) && a@ == address@
            &&& c.path is None
            &&& c.baud_rate is None
        },
        Device::Rtu { path, baud_rate } => {
            &&& c.address is None
            &&& c.path matches Some(p) && p@ == path@
            &&& c.baud_rate == Some(baud_rate as i32)
        },
    }
    &&& c.slave == match d.slave {
        Some(s) => Some(s as i32),
        None => None::<i32>,
    }
}

/// The columns that hold a destination.
pub fn destination_columns(destination: &Destination) -> (c: DestinationColumns)
    ensures
        columns_of(c, *destination),
{
    let slave = to_db_slave(destination.slave);
    match &destination.address {
        Device::Tcp(address) => DestinationColumns {
            address: Some(copy_string(address)),
            path: None,
            baud_rate: None,
            slave,
        },
        Device::Rtu { path, baud_rate } => DestinationColumns {
            address: None,
            path: Some(copy_string(path)),
            baud_rate: Some(*baud_rate as i32),
            slave,
        },
    }
}

/// The row of a device.
#[derive(Debug)]
pub struct DeviceRow {
    pub id: String,
    pub kind: String,
    pub status: DeviceStatus,
    pub seen: Timestamp,
    pub pinged: Timestamp,
    pub columns: DestinationColumns,
}

/// The row of a device found now: healthy, seen and pinged now, at its
/// destination.
pub fn new_device_row(id: String, kind: String, destination: &Destination, now: Timestamp) -> (r:
    DeviceRow)
    ensures
        r.id == id,
        r.kind == kind,
        r.status == DeviceStatus::Healthy,
        r.seen == now,
        r.pinged == now,
        columns_of(r.columns, *destination),
{
    DeviceRow {
        id,
        kind,
        status: DeviceStatus::Healthy,
        seen: now,
        pinged: now,
        columns: destination_columns(destination),
    }
}

/// The slave number that the database stores, when it is one.
pub fn from_db_slave(slave: Option<i32>) -> (r: Option<u8>)
    ensures
        r == match slave {
            Some(s) => if 0 <= s <= 255 {
                Some(s as u8)
            } else {
                None::<u8>
            },
            None => None::<u8>,
        },
{
    match slave {
        Some(s) => if 0 <= s && s <= 255 {
            Some(s as u8)
        } else {
            None
        },
        None => None,
    }
}

/// The destination that columns hold: a TCP server when they hold an
/// address, a serial one when they hold a path and a baud rate that is a
/// rate, none otherwise; the slave when it is a slave number.
pub fn destination_from_columns(c: &DestinationColumns) -> (r: Option<Destination>)
    ensures
        match r {
            Some(d) => {
                &&& d.slave == match c.slave {
                    Some(s) => if 0 <= s <= 255 {
                        Some(s as u8)
                    } else {
                        None::<u8>
                    },
                    None => None::<u8>,
                }
                &&& match c.address {
                    Some(a) => d.address matches Device::Tcp(t) && t@ == a@,
                    None => {
                        &&& c.path matches Some(p)
                        &&& c.baud_rate matches Some(b)
                        &&& b >= 0
                        &&& d.address matches Device::Rtu { path, baud_rate }
                        &&& path@ == p@
                        &&& baud_rate == b as u32
                    },
                }
            },
            None => c.address is None && !(c.path is Some && (c.baud_rate matches Some(b) && b >= 0)),
        },
{
    let slave = from_db_slave(c.slave);
    match &c.address {
        Some(a) => Some(Destination { address: Device::Tcp(copy_string(a)), slave }),
        None => match (&c.path, c.baud_rate) {
            (Some(p), Some(b)) => if b >= 0 {
                Some(
                    Destination {
                        address: Device::Rtu { path: copy_string(p), baud_rate: b as u32 },
                        slave,
                    },
                )
            } else {
                None
            },
            _ => None,
        },
    }
}

} // verus!
