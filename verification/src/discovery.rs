//! Finding devices: the serial ports worth probing, and the order in which
//! a Modbus server and the slaves behind it are probed.

use vstd::prelude::*;

use crate::connection::{max_device_slave, min_device_slave};
use crate::register::{regex_is_match, regex_match};

verus! {

/// Where probing a server for devices stands.
#[derive(Clone, Copy, Debug, PartialEq, Eq, Structural)]
pub enum Probe {
    /// Probe the server itself.
    Standalone,
    /// Probe the slave with this number.
    Slave(u8),
    /// Stop probing.
    Done,
}

/// The next probe: a server that is a device is not probed further;
/// otherwise its slaves are probed in order until one is not a device or the
/// slave range ends.
pub open spec fn next_probe_spec(probe: Probe, matched: bool) -> Probe {
    match probe {
        Probe::Standalone => if matched {
            Probe::Done
        } else {
            Probe::Slave(1)
        },
        Probe::Slave(n) => if matched && n + 1 < 247 {
            Probe::Slave((n + 1) as u8)
        } else {
            Probe::Done
        },
        Probe::Done => Probe::Done,
    }
}

/// The next probe after `probe`, given whether it found a device (see
/// [`next_probe_spec`]).
pub fn next_probe(probe: Probe, matched: bool) -> (next: Probe)
    ensures
        next == next_probe_spec(probe, matched),
{
    match probe {
        Probe::Standalone => if matched {
            Probe::Done
        } else {
            Probe::Slave(min_device_slave())
        },
        Probe::Slave(n) => {
            let max = max_device_slave();
            if matched && n < 246 && n + 1 < max {
                Probe::Slave(n + 1)
            } else {
                Probe::Done
            }
        },
        Probe::Done => Probe::Done,
    }
}

/// The probes made from `probe` on when the first `k` probes find a device
/// and the next one does not (or `k` reaches the end).
pub open spec fn probes_from(probe: Probe, k: nat) -> Seq<Probe>
    decreases k,
{
    if probe == Probe::Done {
        Seq::empty()
    } else if k == 0 {
        seq![probe]
    } else {
        seq![probe] + probes_from(next_probe_spec(probe, true), (k - 1) as nat)
    }
}

/// Law: on a server that is not a device, the slaves probed are the first
/// ones in order, with no number skipped and none past the range.
pub proof fn law_slaves_probed_in_order(n: u8, k: nat)
    requires
        1 <= n < 247,
    ensures
        forall|i: int|
            0 <= i < probes_from(Probe::Slave(n), k).len() ==> #[trigger] probes_from(
                Probe::Slave(n),
                k,
            )[i] == Probe::Slave((n + i) as u8) && n + i < 247,
    decreases k,
{
    let p = probes_from(Probe::Slave(n), k);
    if k > 0 && n + 1 < 247 {
        law_slaves_probed_in_order((n + 1) as u8, (k - 1) as nat);
        let rest = probes_from(Probe::Slave((n + 1) as u8), (k - 1) as nat);
        assert(p == seq![Probe::Slave(n)] + rest);
        assert forall|i: int| 0 <= i < p.len() implies #[trigger] p[i] == Probe::Slave((n + i) as u8) && n + i < 247 by {
            if i > 0 {
                assert(p[i] == rest[i - 1]);
            }
        }
    } else if k > 0 {
        assert(next_probe_spec(Probe::Slave(n), true) == Probe::Done);
        assert(probes_from(Probe::Done, (k - 1) as nat) =~= Seq::<Probe>::empty());
        assert(p =~= seq![Probe::Slave(n)]);
    }
}

/// True when every detect register of a device kind matches.
pub fn all_detected(matches: &Vec<bool>) -> (r: bool)
    ensures
        r <==> forall|i: int| 0 <= i < matches@.len() ==> #[trigger] matches@[i],
{
    let mut i: usize = 0;
    while i < matches.len()
        invariant
            i <= matches@.len(),
            forall|j: int| 0 <= j < i ==> #[trigger] matches@[j],
        decreases matches@.len() - i,
    {
        if !matches[i] {
            return false;
        }
        i = i + 1;
    }
    true
}

/// A serial port that may have a Modbus device on it.
#[derive(Debug)]
pub struct SerialPort {
    pub path: String,
    pub baud_rate: u32,
}

/// The pattern of the path of a serial device: absolute, with at least two
/// components.
pub const SERIAL_PATH_PATTERN: &'static str = "^/[^/]+(/[^/]+)+$";

/// The baud rate at which serial devices are probed.
pub const SERIAL_BAUD_RATE: u32 = 38400;

/// The serial ports that are probed for devices: those of an unknown type
/// whose path matches [`SERIAL_PATH_PATTERN`], in order, at 38400 baud.
pub fn serial_candidates(ports: Vec<(String, bool)>) -> (r: Vec<SerialPort>)
    ensures
        r@.map_values(|p: SerialPort| (p.path@, p.baud_rate)) == ports@.filter(
            |p: (String, bool)| p.1 && regex_match(SERIAL_PATH_PATTERN@, p.0@),
        ).map_values(|p: (String, bool)| (p.0@, 38400u32)),
{
    let ghost source = ports@;
    let count = ports.len();
    let mut rest = ports;
    let mut r: Vec<SerialPort> = Vec::new();
    let mut i: usize = 0;
    while rest.len() > 0
        invariant
            source.len() == count,
            i + rest@.len() == count,
            rest@ == source.subrange(i as int, count as int),
            r@.map_values(|p: SerialPort| (p.path@, p.baud_rate)) =~= source.take(i as int).filter(
                |p: (String, bool)| p.1 && regex_match(SERIAL_PATH_PATTERN@, p.0@),
            ).map_values(|p: (String, bool)| (p.0@, 38400u32)),
        decreases rest@.len(),
    {
        let (path, unknown_type) = rest.remove(0);
        let ghost before = r@;
        proof {
            let pred = |p: (String, bool)| p.1 && regex_match(SERIAL_PATH_PATTERN@, p.0@);
            assert(source.take(i + 1).drop_last() =~= source.take(i as int));
            reveal(Seq::filter);
            assert(source.take(i + 1).filter(pred) == if pred(source[i as int]) {
                source.take(i as int).filter(pred).push(source[i as int])
            } else {
                source.take(i as int).filter(pred)
            });
        }
        if unknown_type && regex_is_match(SERIAL_PATH_PATTERN, path.as_str()) {
            r.push(SerialPort { path, baud_rate: SERIAL_BAUD_RATE });
            proof {
                assert(r@.map_values(|p: SerialPort| (p.path@, p.baud_rate)) =~= before.map_values(
                    |p: SerialPort| (p.path@, p.baud_rate),
                ).push((source[i as int].0@, 38400u32)));
            }
        }
        i = i + 1;
    }
    assert(source.take(count as int) =~= source);
    r
}

} // verus!
