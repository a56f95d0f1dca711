//! Device selection, endpoint resolution, and error classification.

use pos58_usb::device::{first_target_device, is_target_device, locate_target, DeviceId};
use pos58_usb::endpoint::{
    find_writeable_endpoint, is_bulk_out, resolve_or_error, ConfigDesc, Direction, EndpointDesc,
    EndpointMatch, InterfaceDesc, TransferType,
};
use pos58_usb::error::{translate_error, SetupError, UsbError, WriteErrorKind};
use pos58_usb::{DOTS_PER_MM, PAPER_WIDTH_MM, PRINTABLE_WIDTH_MM, PRODUCT_ID, VENDOR_ID};

fn target_id() -> DeviceId {
    DeviceId {
        vendor_id: 0x0416,
        product_id: 0x5011,
    }
}

fn other_id() -> DeviceId {
    DeviceId {
        vendor_id: 0x1234,
        product_id: 0x5678,
    }
}

fn endpoint(address: u8, direction: Direction, transfer_type: TransferType) -> EndpointDesc {
    EndpointDesc {
        address,
        direction,
        transfer_type,
        max_packet_size: 64,
    }
}

fn single_config(interface_number: u8, endpoints: Vec<EndpointDesc>) -> ConfigDesc {
    ConfigDesc {
        interfaces: vec![InterfaceDesc {
            interface_number,
            endpoints,
        }],
    }
}

#[test]
fn identity_constants() {
    assert_eq!(VENDOR_ID, 0x0416);
    assert_eq!(PRODUCT_ID, 0x5011);
    assert_eq!(PAPER_WIDTH_MM, 58);
    assert_eq!(PRINTABLE_WIDTH_MM, 48);
    assert_eq!(DOTS_PER_MM, 8);
}

#[test]
fn target_identity_is_recognised() {
    assert!(is_target_device(&target_id()));
    assert!(!is_target_device(&other_id()));
    assert!(!is_target_device(&DeviceId {
        vendor_id: 0x0416,
        product_id: 0
    }));
}

#[test]
fn no_matching_device_fails_with_device_not_found() {
    let ids = vec![other_id(), other_id()];
    assert_eq!(locate_target(&ids), Err(SetupError::DeviceNotFound));
    let empty: Vec<DeviceId> = Vec::new();
    assert_eq!(locate_target(&empty), Err(SetupError::DeviceNotFound));
}

#[test]
fn first_matching_device_wins() {
    let ids = vec![other_id(), target_id(), target_id()];
    assert_eq!(locate_target(&ids), Ok(1));
}

#[test]
fn search_can_resume_past_a_candidate() {
    // When a matching device cannot be opened, the search goes on from the
    // next index.
    let ids = vec![target_id(), other_id(), target_id()];
    assert_eq!(first_target_device(&ids, 0), Some(0));
    assert_eq!(first_target_device(&ids, 1), Some(2));
    assert_eq!(first_target_device(&ids, 3), None);
}

#[test]
fn bulk_out_endpoints_are_recognised() {
    assert!(is_bulk_out(&endpoint(1, Direction::Out, TransferType::Bulk)));
    assert!(!is_bulk_out(&endpoint(1, Direction::In, TransferType::Bulk)));
    assert!(!is_bulk_out(&endpoint(
        1,
        Direction::Out,
        TransferType::Interrupt
    )));
}

#[test]
fn no_bulk_out_endpoint_fails_with_endpoint_not_found() {
    let configs = vec![
        single_config(
            0,
            vec![
                endpoint(0x81, Direction::In, TransferType::Bulk),
                endpoint(0x02, Direction::Out, TransferType::Interrupt),
            ],
        ),
        single_config(1, vec![endpoint(0x83, Direction::In, TransferType::Interrupt)]),
    ];
    assert_eq!(find_writeable_endpoint(&configs), None);
    assert_eq!(resolve_or_error(&configs), Err(SetupError::EndpointNotFound));

    let empty: Vec<ConfigDesc> = Vec::new();
    assert_eq!(resolve_or_error(&empty), Err(SetupError::EndpointNotFound));
}

#[test]
fn first_bulk_out_in_enumeration_order_is_selected() {
    let configs = vec![
        single_config(0, vec![endpoint(0x81, Direction::In, TransferType::Bulk)]),
        single_config(
            2,
            vec![
                endpoint(0x82, Direction::In, TransferType::Bulk),
                endpoint(0x03, Direction::Out, TransferType::Bulk),
                endpoint(0x04, Direction::Out, TransferType::Bulk),
            ],
        ),
        single_config(3, vec![endpoint(0x05, Direction::Out, TransferType::Bulk)]),
    ];
    assert_eq!(
        find_writeable_endpoint(&configs),
        Some(EndpointMatch {
            address: 0x03,
            interface_number: 2,
            max_packet_size: 64,
        })
    );
}

#[test]
fn resolution_is_deterministic() {
    let build = || {
        vec![
            single_config(0, vec![endpoint(0x81, Direction::In, TransferType::Bulk)]),
            ConfigDesc {
                interfaces: vec![
                    InterfaceDesc {
                        interface_number: 1,
                        endpoints: vec![endpoint(0x07, Direction::Out, TransferType::Bulk)],
                    },
                    InterfaceDesc {
                        interface_number: 4,
                        endpoints: vec![endpoint(0x09, Direction::Out, TransferType::Bulk)],
                    },
                ],
            },
        ]
    };
    let first = find_writeable_endpoint(&build());
    for _ in 0..10 {
        assert_eq!(find_writeable_endpoint(&build()), first);
    }
    assert_eq!(
        first,
        Some(EndpointMatch {
            address: 0x07,
            interface_number: 1,
            max_packet_size: 64,
        })
    );
}

#[test]
fn resolution_reports_the_matched_endpoint_fields() {
    let configs = vec![single_config(
        5,
        vec![EndpointDesc {
            address: 0x02,
            direction: Direction::Out,
            transfer_type: TransferType::Bulk,
            max_packet_size: 512,
        }],
    )];
    assert_eq!(
        resolve_or_error(&configs),
        Ok(EndpointMatch {
            address: 0x02,
            interface_number: 5,
            max_packet_size: 512,
        })
    );
}

#[test]
fn transport_failures_are_classified() {
    assert_eq!(
        translate_error(UsbError::NoDevice),
        WriteErrorKind::NotConnected
    );
    assert_eq!(translate_error(UsbError::Busy), WriteErrorKind::WouldBlock);
    assert_eq!(translate_error(UsbError::Timeout), WriteErrorKind::TimedOut);
    assert_eq!(translate_error(UsbError::Io), WriteErrorKind::Interrupted);
    for e in [
        UsbError::InvalidParam,
        UsbError::Access,
        UsbError::NotFound,
        UsbError::Overflow,
        UsbError::Pipe,
        UsbError::Interrupted,
        UsbError::NoMem,
        UsbError::NotSupported,
        UsbError::Other,
    ] {
        assert_eq!(translate_error(e), WriteErrorKind::Other);
    }
}

#[test]
fn claim_failure_keeps_its_cause() {
    let e = SetupError::InterfaceClaimFailed(UsbError::Busy);
    assert_eq!(e, SetupError::InterfaceClaimFailed(UsbError::Busy));
    assert_ne!(e, SetupError::InterfaceClaimFailed(UsbError::Access));
    assert_ne!(e, SetupError::DeviceNotFound);
}
