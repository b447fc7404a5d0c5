//! Modbus servers and the destinations behind them: how a server is
//! addressed, which slave a request goes to, and when a connection is
//! dropped after a failed request.

use vstd::prelude::*;

use crate::text::copy_string;
use crate::worker::ConnectError;

verus! {

/// `tokio_modbus::Slave::min_device()`: the smallest slave number of a
/// device on a bus, 1.
#[verifier::external_body]
pub(crate) fn min_device_slave() -> (s: u8)
    ensures
        s == 1,
{
    tokio_modbus::Slave::min_device().0
}

/// `tokio_modbus::Slave::max_device()`: the largest slave number of a
/// device on a bus, 247.
#[verifier::external_body]
pub(crate) fn max_device_slave() -> (s: u8)
    ensures
        s == 247,
{
    tokio_modbus::Slave::max_device().0
}

/// `tokio_modbus::Slave::tcp_device()`: the slave number that addresses a
/// device directly over TCP, 255.
#[verifier::external_body]
pub(crate) fn tcp_device_slave() -> (s: u8)
    ensures
        s == 255,
{
    tokio_modbus::Slave::tcp_device().0
}

/// A Modbus server: a TCP socket address (in its text form, such as
/// `192.168.1.10:502`) or a serial port with its baud rate.
#[derive(Clone, Debug)]
pub enum Device {
    Tcp(String),
    Rtu { path: String, baud_rate: u32 },
}

/// What a [`Device`] is, as plain values.
pub enum DeviceView {
    Tcp(Seq<char>),
    Rtu { path: Seq<char>, baud_rate: u32 },
}

impl View for Device {
    type V = DeviceView;

    open spec fn view(&self) -> DeviceView {
        match self {
            Device::Tcp(address) => DeviceView::Tcp(address@),
            Device::Rtu { path, baud_rate } => DeviceView::Rtu { path: path@, baud_rate: *baud_rate },
        }
    }
}

impl Device {
    /// A copy of the device.
    pub fn copy(&self) -> (d: Device)
        ensures
            d@ == self@,
    {
        match self {
            Device::Tcp(address) => Device::Tcp(copy_string(address)),
            Device::Rtu { path, baud_rate } => Device::Rtu {
                path: copy_string(path),
                baud_rate: *baud_rate,
            },
        }
    }

    /// Whether two devices are the same server.
    pub fn same(&self, other: &Device) -> (r: bool)
        ensures
            r == (self@ == other@),
    {
        match self {
            Device::Tcp(a) => match other {
                Device::Tcp(b) => *a == *b,
                Device::Rtu { .. } => false,
            },
            Device::Rtu { path: a, baud_rate: ra } => match other {
                Device::Tcp(_) => false,
                Device::Rtu { path: b, baud_rate: rb } => {
                    let same_path = *a == *b;
                    same_path && *ra == *rb
                },
            },
        }
    }
}

/// Where requests go: a server, and a slave behind it when the server is a
/// gateway.
#[derive(Clone, Debug)]
pub struct Destination {
    pub address: Device,
    pub slave: Option<u8>,
}

/// What a [`Destination`] is, as plain values.
pub struct DestinationView {
    pub address: DeviceView,
    pub slave: Option<u8>,
}

impl View for Destination {
    type V = DestinationView;

    open spec fn view(&self) -> DestinationView {
        DestinationView { address: self.address@, slave: self.slave }
    }
}

impl Destination {
    /// The destination of a device that is the server itself.
    pub fn standalone_for(address: Device) -> (d: Destination)
        ensures
            d.address == address,
            d.slave is None,
    {
        Destination { address, slave: None }
    }

    /// The destinations of the slaves behind a gateway, from the smallest
    /// slave number up to the largest one, which is left out.
    pub fn slaves_for(address: &Device) -> (ds: Vec<Destination>)
        ensures
            ds@.len() == 246,
            forall|i: int|
                0 <= i < ds@.len() ==> (#[trigger] ds@[i])@ == (DestinationView {
                    address: address@,
                    slave: Some((i + 1) as u8),
                }),
    {
        let min = min_device_slave();
        let max = max_device_slave();
        let mut ds: Vec<Destination> = Vec::new();
        let mut slave = min;
        while slave < max
            invariant
                min == 1,
                max == 247,
                1 <= slave <= 247,
                ds@.len() == slave - 1,
                forall|i: int|
                    0 <= i < ds@.len() ==> (#[trigger] ds@[i])@ == (DestinationView {
                        address: address@,
                        slave: Some((i + 1) as u8),
                    }),
            decreases max - slave,
        {
            ds.push(Destination { address: address.copy(), slave: Some(slave) });
            slave = slave + 1;
        }
        ds
    }

    /// A copy of the destination.
    pub fn copy(&self) -> (d: Destination)
        ensures
            d@ == self@,
    {
        Destination { address: self.address.copy(), slave: self.slave }
    }

    /// Whether two destinations are the same.
    pub fn same(&self, other: &Destination) -> (r: bool)
        ensures
            r == (self@ == other@),
    {
        let same_slave = match (self.slave, other.slave) {
            (Some(a), Some(b)) => a == b,
            (None, None) => true,
            _ => false,
        };
        self.address.same(&other.address) && same_slave
    }
}

/// The slave number a request goes to: the given slave when it is in the
/// device range, the TCP device number when there is none, and an error
/// for a slave outside the range.
pub fn request_slave(slave: Option<u8>) -> (r: Result<u8, ConnectError>)
    ensures
        match slave {
            Some(s) => if 1 <= s <= 247 {
                r == Ok::<u8, ConnectError>(s)
            } else {
                r matches Err(ConnectError::Slave)
            },
            None => r == Ok::<u8, ConnectError>(255u8),
        },
{
    match slave {
        Some(s) => {
            if s < min_device_slave() || s > max_device_slave() {
                Err(ConnectError::Slave)
            } else {
                Ok(s)
            }
        },
        None => Ok(tcp_device_slave()),
    }
}

/// How a request on a connection failed.
#[derive(Clone, Copy, Debug, PartialEq, Eq, Structural)]
pub enum RequestFailure {
    /// The connection could not be made, or the slave number was wrong.
    Connection,
    /// The server did not answer properly.
    Read,
    /// The request timed out.
    Timeout,
}

/// Whether a connection is dropped after a request failed this way: it is
/// after a connection or read failure, and kept after a timeout.
pub fn drops_connection(failure: RequestFailure) -> (r: bool)
    ensures
        r <==> (failure == RequestFailure::Connection || failure == RequestFailure::Read),
{
    match failure {
        RequestFailure::Connection => true,
        RequestFailure::Read => true,
        RequestFailure::Timeout => false,
    }
}

} // verus!
