use usb_core::descriptors::{
    parse_all, parse_record, DescriptorAny, DescriptorConfiguration, DescriptorDevice,
    DescriptorEndpoint, DescriptorInterface, DescriptorString, IterDescriptors, ParseError,
};
use usb_core::setup::DeviceRequest;

fn sample_blob() -> Vec<u8> {
    // Configuration header, one vendor-class interface, one bulk-IN endpoint.
    vec![
        0x09, 0x02, 0x20, 0x00, 0x01, 0x01, 0x00, 0x80, 0x32, // Configuration
        0x09, 0x04, 0x00, 0x00, 0x01, 0xFF, 0x00, 0x00, 0x00, // Interface
        0x07, 0x05, 0x81, 0x02, 0x40, 0x00, 0x00, // Endpoint
    ]
}

#[test]
fn parses_configuration_interface_endpoint_sequence() {
    let blob = sample_blob();
    let records = parse_all(&blob).expect("blob parses");
    assert_eq!(records.len(), 3);
    match &records[0] {
        DescriptorAny::Configuration(c) => {
            assert_eq!(c.total_length, 0x20);
            assert_eq!(c.num_interfaces, 1);
            assert_eq!(c.length, 9);
        }
        other => panic!("expected configuration, got {:?}", other),
    }
    match &records[1] {
        DescriptorAny::Interface(i) => {
            assert_eq!(i.interface_class, 0xFF);
            assert_eq!(i.num_endpoints, 1);
        }
        other => panic!("expected interface, got {:?}", other),
    }
    match &records[2] {
        DescriptorAny::Endpoint(e) => {
            assert_eq!(e.address, 0x81);
            assert_eq!(e.attributes, 0x02);
            assert_eq!(e.max_packet_size, (0x40, 0x00));
        }
        other => panic!("expected endpoint, got {:?}", other),
    }
}

#[test]
fn iterator_yields_records_then_none() {
    let blob = sample_blob();
    let mut it = IterDescriptors::new(&blob);
    assert!(matches!(it.next(), Some(Ok(DescriptorAny::Configuration(_)))));
    assert!(matches!(it.next(), Some(Ok(DescriptorAny::Interface(_)))));
    assert!(matches!(it.next(), Some(Ok(DescriptorAny::Endpoint(_)))));
    assert!(it.next().is_none());
}

#[test]
fn parser_rejects_truncated_and_overlong_records() {
    // Single byte: no type byte to read.
    assert_eq!(parse_record(&[0x05], 0), Some(Err(ParseError)));
    // Length byte runs past the end of the blob: must not over-read.
    assert_eq!(parse_record(&[0x09, 0x02, 0x20], 0), Some(Err(ParseError)));
    // Length byte below the header size.
    assert_eq!(parse_record(&[0x01, 0x02, 0x00], 0), Some(Err(ParseError)));
    // A typed record shorter than its type requires.
    assert_eq!(parse_record(&[0x05, 0x01, 0x00, 0x00, 0x00], 0), Some(Err(ParseError)));
    // A string record of odd length.
    assert_eq!(parse_record(&[0x03, 0x03, 0x41], 0), Some(Err(ParseError)));
    // End of blob.
    assert_eq!(parse_record(&[], 0), None);
}

#[test]
fn unknown_records_keep_their_bytes() {
    let blob = vec![0x04, 0x21, 0xAA, 0xBB];
    match parse_record(&blob, 0) {
        Some(Ok((DescriptorAny::Unknown(data), 4))) => assert_eq!(data, blob),
        other => panic!("unexpected result {:?}", other),
    }
}

#[test]
fn string_descriptor_parses_utf16_units() {
    let blob = vec![0x06, 0x03, 0x41, 0x00, 0x42, 0x00];
    match parse_record(&blob, 0) {
        Some(Ok((DescriptorAny::String(s), 6))) => {
            assert_eq!(s.length, 6);
            assert_eq!(s.utf16, vec![0x41, 0x42]);
        }
        other => panic!("unexpected result {:?}", other),
    }
}

#[test]
fn encode_then_parse_round_trips_each_record_kind() {
    let records = vec![
        DescriptorAny::Device(DescriptorDevice {
            length: 18,
            usb_version: 0x0200,
            device_class: 0,
            device_sub_class: 0,
            device_protocol: 0,
            max_packet_size_ep0: 64,
            vendor_id: 0x1234,
            device_id: 0x5678,
            device_version: 0x0101,
            manufacturer_str: 1,
            product_str: 2,
            serial_number_str: 3,
            num_configurations: 1,
        }),
        DescriptorAny::Configuration(DescriptorConfiguration {
            length: 9,
            total_length: 0x0020,
            num_interfaces: 1,
            configuration_value: 1,
            configuration_str: 0,
            attributes: 0x80,
            max_power: 0x32,
        }),
        DescriptorAny::String(DescriptorString { length: 6, utf16: vec![0x48, 0x69] }),
        DescriptorAny::Interface(DescriptorInterface {
            length: 9,
            interface_num: 0,
            alternate_setting: 0,
            num_endpoints: 1,
            interface_class: 0xFF,
            interface_sub_class: 0,
            interface_protocol: 0,
            interface_str: 0,
        }),
        DescriptorAny::Endpoint(DescriptorEndpoint {
            length: 7,
            address: 0x81,
            attributes: 0x02,
            max_packet_size: (0x40, 0x00),
            max_polling_interval: 0,
        }),
        DescriptorAny::Unknown(vec![0x03, 0x21, 0x7F]),
    ];
    let mut wire: Vec<u8> = Vec::new();
    for r in &records {
        wire.extend_from_slice(&r.encode());
    }
    let parsed = parse_all(&wire).expect("concatenated encodings parse");
    assert_eq!(parsed, records);
}

#[test]
fn setup_packet_round_trips() {
    let r = DeviceRequest { req_type: 0x80, req_num: 6, value: 0x0100, index: 0, length: 18 };
    let bytes = r.to_bytes();
    assert_eq!(bytes, [0x80, 0x06, 0x00, 0x01, 0x00, 0x00, 0x12, 0x00]);
    assert_eq!(DeviceRequest::from_bytes(&bytes), r);

    let r2 = DeviceRequest {
        req_type: 0x21,
        req_num: 9,
        value: 0xABCD,
        index: 0x0102,
        length: 0xFFFF,
    };
    assert_eq!(DeviceRequest::from_bytes(&r2.to_bytes()), r2);
}

#[test]
fn iterator_stops_after_a_parse_error() {
    // A valid endpoint record followed by a record that over-runs.
    let blob = vec![0x07, 0x05, 0x81, 0x02, 0x40, 0x00, 0x00, 0x09, 0x02];
    let mut it = IterDescriptors::new(&blob);
    assert!(matches!(it.next(), Some(Ok(DescriptorAny::Endpoint(_)))));
    assert_eq!(it.next(), Some(Err(ParseError)));
    assert!(it.next().is_none());
}

#[test]
fn parse_all_propagates_the_first_error() {
    let blob = vec![0x07, 0x05, 0x81, 0x02, 0x40, 0x00, 0x00, 0x09, 0x02];
    assert_eq!(parse_all(&blob), Err(ParseError));
}
