use usb_core::descriptors::{DescriptorAny, DescriptorEndpoint};
use usb_core::enumerate::{
    decode_utf16, split_interfaces, spawn_interface, DevAction, DevEvent, EndpointType, Interface,
    PortDev,
};
use usb_core::enumerate::decode_endpoint;
use usb_core::host::{
    get_descriptor_request, set_address_request, BulkEndpoint, Endpoint, Host, PortFeature,
    RootEvent,
};
use usb_core::setup::DeviceRequest;

fn device_descriptor_bytes() -> Vec<u8> {
    // 18 bytes: USB 2.0, no class triple, EP0 packet size 64, IDs
    // 0x1234:0x5678, no string indexes, one configuration.
    vec![
        0x12, 0x01, 0x00, 0x02, 0x00, 0x00, 0x00, 0x40, 0x34, 0x12, 0x78, 0x56, 0x00, 0x01, 0x00,
        0x00, 0x00, 0x01,
    ]
}

fn config_base_bytes() -> Vec<u8> {
    vec![0x09, 0x02, 0x20, 0x00, 0x01, 0x01, 0x00, 0x80, 0x32]
}

fn full_config_bytes() -> Vec<u8> {
    let mut v = config_base_bytes();
    v.extend_from_slice(&[0x09, 0x04, 0x00, 0x00, 0x01, 0xFF, 0x00, 0x00, 0x00]);
    v.extend_from_slice(&[0x07, 0x05, 0x81, 0x02, 0x40, 0x00, 0x00]);
    v
}

#[test]
fn port_connect_enumerates_to_an_unknown_interface() {
    let mut host = Host::new(1);
    // The HC reported a change on port 0: CConnection set, Connection set.
    match host.handle_root_event(0, true, true) {
        RootEvent::Connected { addr } => assert_eq!(addr, Some(1)),
        other => panic!("expected a connect, got {:?}", other),
    }

    let mut dev = PortDev::new(0, 1);
    assert_eq!(dev.step(DevEvent::Started), DevAction::AcquireAddr0);
    assert_eq!(
        dev.step(DevEvent::Addr0Granted),
        DevAction::GetPortFeature(PortFeature::Power)
    );
    assert_eq!(
        dev.step(DevEvent::Feature(true)),
        DevAction::SetPortFeature(PortFeature::Reset)
    );
    assert_eq!(dev.step(DevEvent::Ack), DevAction::Sleep(50));
    assert_eq!(
        dev.step(DevEvent::SleepDone),
        DevAction::ClearPortFeature(PortFeature::Reset)
    );
    assert_eq!(dev.step(DevEvent::Ack), DevAction::Sleep(2));
    assert_eq!(
        dev.step(DevEvent::SleepDone),
        DevAction::SetPortFeature(PortFeature::Enable)
    );
    assert_eq!(
        dev.step(DevEvent::Ack),
        DevAction::ControlOut { request: set_address_request(1) }
    );
    assert_eq!(dev.step(DevEvent::Sent), DevAction::ReleaseAddr0);
    assert_eq!(
        dev.step(DevEvent::Ack),
        DevAction::ControlIn { request: get_descriptor_request(1, 0, 18) }
    );
    // Device descriptor with no string indexes: the three string reads
    // are skipped on the wire.
    assert_eq!(dev.step(DevEvent::Data(device_descriptor_bytes())), DevAction::Nop);
    assert_eq!(dev.step(DevEvent::Ack), DevAction::Nop);
    assert_eq!(dev.step(DevEvent::Ack), DevAction::Nop);
    assert_eq!(
        dev.step(DevEvent::Ack),
        DevAction::ControlIn { request: get_descriptor_request(2, 0, 9) }
    );
    // Configuration 0 header, then its (empty) name.
    assert_eq!(dev.step(DevEvent::Data(config_base_bytes())), DevAction::Nop);
    // One configuration only: re-read the base header to configure it.
    assert_eq!(
        dev.step(DevEvent::Ack),
        DevAction::ControlIn { request: get_descriptor_request(2, 0, 9) }
    );
    assert_eq!(
        dev.step(DevEvent::Data(config_base_bytes())),
        DevAction::ControlIn { request: get_descriptor_request(2, 0, 0x20) }
    );
    // The full blob: one vendor-class interface with one bulk-IN
    // endpoint; its (empty) interface name, then the driver lookup.
    assert_eq!(dev.step(DevEvent::Data(full_config_bytes())), DevAction::Nop);
    assert_eq!(dev.step(DevEvent::Ack), DevAction::LookupDriver(0xFF0000));
    // No driver: the interface is retained with its endpoints and bytes.
    assert_eq!(dev.step(DevEvent::Driver(None)), DevAction::Done);

    assert_eq!(dev.interfaces.len(), 1);
    let expected_ep = Endpoint::Bulk(BulkEndpoint::new(1, 1, true, 0x40));
    assert_eq!(
        dev.interfaces[0],
        Interface::Unknown(
            vec![expected_ep],
            vec![0x07, 0x05, 0x81, 0x02, 0x40, 0x00, 0x00],
        )
    );
}

#[test]
fn address_exhaustion_drops_the_device_silently() {
    let mut host = Host::new(1);
    for _ in 0..127 {
        assert!(host.add_device().is_some());
    }
    match host.handle_root_event(0, true, true) {
        RootEvent::Connected { addr } => assert_eq!(addr, None),
        other => panic!("expected a connect, got {:?}", other),
    }
}

#[test]
fn root_events_without_connection_change_do_nothing() {
    let mut host = Host::new(2);
    assert_eq!(host.handle_root_event(1, false, false), RootEvent::NoChange);
    assert_eq!(host.handle_root_event(1, false, true), RootEvent::NoChange);
    assert_eq!(host.handle_root_event(1, true, false), RootEvent::Disconnected);
}

#[test]
fn address_zero_guard_builds_the_set_address_packet() {
    let mut host = Host::new(1);
    let guard = host.get_address_zero();
    let req = guard.send_setup_address(5);
    assert_eq!(req, DeviceRequest { req_type: 0, req_num: 5, value: 5, index: 0, length: 0 });
    assert_eq!(req.to_bytes(), [0x00, 0x05, 0x05, 0x00, 0x00, 0x00, 0x00, 0x00]);
    host.release_address_zero(guard);
}

#[test]
fn get_descriptor_request_encodes_type_bits() {
    // A standard descriptor read.
    let r = get_descriptor_request(3, 2, 255);
    assert_eq!(r.req_type, 0x80);
    assert_eq!(r.req_num, 6);
    assert_eq!(r.value, 0x0302);
    assert_eq!(r.index, 0);
    assert_eq!(r.length, 255);
    // A class-typed descriptor carries its bits in the high byte.
    let r2 = get_descriptor_request(0x2200, 0, 64);
    assert_eq!(r2.req_type, 0x80 | (2 << 5) | 2);
}

#[test]
fn endpoint_decoding_extracts_the_fields() {
    let d = DescriptorEndpoint {
        length: 7,
        address: 0x85,
        attributes: 0x03,
        max_packet_size: (0x08, 0x04),
        max_polling_interval: 10,
    };
    let info = decode_endpoint(&d);
    assert_eq!(info.num, 5);
    assert!(info.dir_in);
    assert_eq!(info.ty, EndpointType::Interrupt);
    // Only the low two bits of the second byte count: 0x04 is ignored.
    assert_eq!(info.max_packet_size, 0x08);
    assert_eq!(info.poll_period, 10);
}

#[test]
fn split_interfaces_groups_records_after_each_interface() {
    let blob = &full_config_bytes()[9..].to_vec();
    let groups = split_interfaces(blob).expect("blob parses");
    assert_eq!(groups.len(), 1);
    assert_eq!(groups[0].desc.interface_class, 0xFF);
    assert_eq!(groups[0].raw, vec![0x07, 0x05, 0x81, 0x02, 0x40, 0x00, 0x00]);
    assert_eq!(groups[0].records.len(), 1);
    assert!(matches!(groups[0].records[0], DescriptorAny::Endpoint(_)));
}

#[test]
fn spawn_interface_binds_a_found_driver() {
    let blob = &full_config_bytes()[9..].to_vec();
    let groups = split_interfaces(blob).unwrap();
    let iface = spawn_interface(3, &groups[0], Some(77)).unwrap();
    match iface {
        Interface::Bound { driver, endpoints } => {
            assert_eq!(driver, 77);
            assert_eq!(endpoints, vec![Endpoint::Bulk(BulkEndpoint::new(3, 1, true, 0x40))]);
        }
        other => panic!("expected a bound interface, got {:?}", other),
    }
}

#[test]
fn utf16_decoding_handles_pairs_and_rejects_lone_surrogates() {
    assert_eq!(decode_utf16(&[]), Some(vec![]));
    assert_eq!(decode_utf16(&[0x48, 0x69]), Some(vec![0x48, 0x69]));
    // One surrogate pair: U+1F600.
    assert_eq!(decode_utf16(&[0xD83D, 0xDE00]), Some(vec![0x1F600]));
    assert_eq!(decode_utf16(&[0xD83D]), None);
    assert_eq!(decode_utf16(&[0xDE00, 0xD83D]), None);
}

#[test]
fn malformed_device_descriptor_fails_enumeration() {
    let mut dev = PortDev::new(0, 1);
    dev.step(DevEvent::Started);
    dev.step(DevEvent::Addr0Granted);
    dev.step(DevEvent::Feature(true));
    dev.step(DevEvent::Ack);
    dev.step(DevEvent::SleepDone);
    dev.step(DevEvent::Ack);
    dev.step(DevEvent::SleepDone);
    dev.step(DevEvent::Ack);
    dev.step(DevEvent::Sent);
    dev.step(DevEvent::Ack);
    // A truncated answer to the device-descriptor read.
    assert_eq!(
        dev.step(DevEvent::Data(vec![0x12, 0x01, 0x00])),
        DevAction::Fail(usb_core::enumerate::EnumerationError::Parse)
    );
}

#[test]
fn bad_string_descriptor_fails_enumeration() {
    let mut dev = PortDev::new(0, 1);
    dev.step(DevEvent::Started);
    dev.step(DevEvent::Addr0Granted);
    dev.step(DevEvent::Feature(true));
    dev.step(DevEvent::Ack);
    dev.step(DevEvent::SleepDone);
    dev.step(DevEvent::Ack);
    dev.step(DevEvent::SleepDone);
    dev.step(DevEvent::Ack);
    dev.step(DevEvent::Sent);
    dev.step(DevEvent::Ack);
    // Manufacturer string at index 1.
    let mut dd = device_descriptor_bytes();
    dd[14] = 1;
    assert_eq!(
        dev.step(DevEvent::Data(dd)),
        DevAction::ControlIn { request: get_descriptor_request(3, 1, 255) }
    );
    // The answer holds an unpaired surrogate: the worker fails.
    assert_eq!(
        dev.step(DevEvent::Data(vec![0x04, 0x03, 0x3D, 0xD8])),
        DevAction::Fail(usb_core::enumerate::EnumerationError::StringDecode)
    );
}

#[test]
fn controller_error_fails_enumeration() {
    let mut dev = PortDev::new(0, 1);
    dev.step(DevEvent::Started);
    dev.step(DevEvent::Addr0Granted);
    dev.step(DevEvent::Feature(true));
    dev.step(DevEvent::Ack);
    dev.step(DevEvent::SleepDone);
    dev.step(DevEvent::Ack);
    dev.step(DevEvent::SleepDone);
    dev.step(DevEvent::Ack);
    dev.step(DevEvent::Sent);
    dev.step(DevEvent::Ack);
    assert_eq!(
        dev.step(DevEvent::TransferError),
        DevAction::Fail(usb_core::enumerate::EnumerationError::TransferFailed)
    );
}

#[test]
fn isochronous_endpoints_are_declined() {
    // One interface whose only endpoint is isochronous (attributes 0x01).
    let blob = vec![
        0x09, 0x04, 0x00, 0x00, 0x01, 0x0E, 0x00, 0x00, 0x00, //
        0x07, 0x05, 0x81, 0x01, 0x40, 0x00, 0x00,
    ];
    let groups = split_interfaces(&blob).unwrap();
    assert_eq!(
        spawn_interface(1, &groups[0], None),
        Err(usb_core::enumerate::EnumerationError::UnsupportedEndpoint)
    );
}
