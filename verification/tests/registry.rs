use pidgeon::connection::{drops_connection, request_slave, Destination, Device, RequestFailure};
use pidgeon::registry::Registry;
use pidgeon::worker::ConnectError;

fn tcp(address: &str) -> Device {
    Device::Tcp(address.to_string())
}

fn at(address: &str, slave: Option<u8>) -> Destination {
    Destination { address: tcp(address), slave }
}

#[test]
fn bound_device_is_found_with_its_server() {
    let mut registry: Registry<u32> = Registry::new();
    registry.bind("abb-1".to_string(), at("10.0.0.1:502", Some(3)), || 7);
    let (destination, worker) = registry.get_device("abb-1").expect("bound");
    assert!(destination.same(&at("10.0.0.1:502", Some(3))));
    assert_eq!(*worker, 7);
    assert!(registry.get_device("abb-2").is_none());
}

#[test]
fn servers_are_shared_by_their_devices() {
    let mut registry: Registry<u32> = Registry::new();
    registry.bind("a".to_string(), at("10.0.0.1:502", Some(1)), || 1);
    registry.bind("b".to_string(), at("10.0.0.1:502", Some(2)), || 2);
    assert_eq!(*registry.get_device("b").expect("bound").1, 1);
    assert_eq!(registry.server(&tcp("10.0.0.1:502")), Some(&1));
}

#[test]
fn binding_again_moves_the_device() {
    let mut registry: Registry<u32> = Registry::new();
    registry.bind("a".to_string(), at("10.0.0.1:502", None), || 1);
    registry.bind("a".to_string(), at("10.0.0.2:502", None), || 2);
    let (destination, worker) = registry.get_device("a").expect("bound");
    assert!(destination.same(&at("10.0.0.2:502", None)));
    assert_eq!(*worker, 2);
}

#[test]
fn stopping_the_last_device_stops_its_server() {
    let mut registry: Registry<u32> = Registry::new();
    registry.bind("a".to_string(), at("10.0.0.1:502", Some(1)), || 1);
    registry.bind("b".to_string(), at("10.0.0.1:502", Some(2)), || 1);
    assert_eq!(registry.stop_from_id("a"), None);
    assert!(registry.get_device("a").is_none());
    assert!(registry.get_device("b").is_some());
    assert_eq!(registry.stop_from_id("b"), Some(1));
    assert_eq!(registry.server(&tcp("10.0.0.1:502")), None);
    assert_eq!(registry.stop_from_id("b"), None);
}

#[test]
fn stopping_a_server_unbinds_its_devices() {
    let mut registry: Registry<u32> = Registry::new();
    registry.bind("a".to_string(), at("10.0.0.1:502", Some(1)), || 1);
    registry.bind("b".to_string(), at("10.0.0.1:502", Some(2)), || 1);
    registry.bind("c".to_string(), at("10.0.0.9:502", None), || 9);
    assert_eq!(registry.stop_from_address(&tcp("10.0.0.1:502")), Some(1));
    assert!(registry.get_device("a").is_none());
    assert!(registry.get_device("b").is_none());
    assert_eq!(*registry.get_device("c").expect("bound").1, 9);
    assert!(!registry.in_use(&tcp("10.0.0.1:502")));
    assert_eq!(registry.stop_from_address(&tcp("10.0.0.1:502")), None);
}

#[test]
fn stopping_a_destination_keeps_the_server_while_it_has_devices() {
    let mut registry: Registry<u32> = Registry::new();
    registry.bind("a".to_string(), at("10.0.0.1:502", Some(1)), || 1);
    registry.bind("b".to_string(), at("10.0.0.1:502", Some(2)), || 1);
    assert_eq!(registry.stop_from_destination(&at("10.0.0.1:502", Some(1))), None);
    assert!(registry.get_device("a").is_none());
    assert_eq!(registry.stop_from_destination(&at("10.0.0.1:502", Some(2))), Some(1));
    assert!(registry.get_device("b").is_none());
}

#[test]
fn stopping_an_unused_destination_changes_nothing() {
    let mut registry: Registry<u32> = Registry::new();
    registry.get_server(&tcp("10.0.0.5:502"), || 5);
    assert_eq!(registry.stop_from_destination(&at("10.0.0.5:502", None)), None);
    assert_eq!(registry.server(&tcp("10.0.0.5:502")), Some(&5));
}

#[test]
fn a_registered_server_keeps_its_worker() {
    let mut registry: Registry<u32> = Registry::new();
    registry.get_server(&tcp("10.0.0.5:502"), || 5);
    registry.get_server(&tcp("10.0.0.5:502"), || panic!("made twice"));
    assert_eq!(registry.server(&tcp("10.0.0.5:502")), Some(&5));
}

#[test]
fn serial_devices_are_told_apart_by_path_and_rate() {
    let a = Device::Rtu { path: "/dev/ttyUSB0".to_string(), baud_rate: 9600 };
    let b = Device::Rtu { path: "/dev/ttyUSB0".to_string(), baud_rate: 19200 };
    assert!(a.same(&a.copy()));
    assert!(!a.same(&b));
    assert!(!a.same(&tcp("/dev/ttyUSB0")));
}

#[test]
fn slaves_of_a_gateway_are_one_to_246() {
    let slaves = Destination::slaves_for(&tcp("10.0.0.1:502"));
    assert_eq!(slaves.len(), 246);
    assert_eq!(slaves[0].slave, Some(1));
    assert_eq!(slaves[245].slave, Some(246));
    assert!(slaves.iter().all(|d| d.address.same(&tcp("10.0.0.1:502"))));
    let standalone = Destination::standalone_for(tcp("10.0.0.1:502"));
    assert_eq!(standalone.slave, None);
}

#[test]
fn request_slave_checks_the_device_range() {
    assert!(matches!(request_slave(Some(1)), Ok(1)));
    assert!(matches!(request_slave(Some(247)), Ok(247)));
    assert!(matches!(request_slave(Some(0)), Err(ConnectError::Slave)));
    assert!(matches!(request_slave(Some(248)), Err(ConnectError::Slave)));
    assert!(matches!(request_slave(None), Ok(255)));
}

#[test]
fn failed_requests_drop_the_connection_unless_they_timed_out() {
    assert!(drops_connection(RequestFailure::Connection));
    assert!(drops_connection(RequestFailure::Read));
    assert!(!drops_connection(RequestFailure::Timeout));
}
