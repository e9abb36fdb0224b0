use cmio_vsock::cmio::{
    handle_yield_response, on_open_failure, send_request, CmioBuffer, CmioError, CmioIoDriver,
    CmioSetup, CmioYield, Mapping, OpenFailure, OpenStep, YieldCommand, HTIF_DEVICE_YIELD,
    HTIF_YIELD_CMD_MANUAL,
};
use cmio_vsock::vsock_protocol::{
    Packet, VirtioVsockHdr, VSOCK_OP_CREDIT_UPDATE, VSOCK_OP_REQUEST, VSOCK_OP_RESPONSE,
    VSOCK_OP_RW, VSOCK_TYPE_STREAM,
};

fn packet_bytes(op: u16, src_port: u32, dst_port: u32, payload: &[u8]) -> Vec<u8> {
    let hdr = VirtioVsockHdr {
        src_cid: 3,
        dst_cid: 1,
        src_port,
        dst_port,
        len: payload.len() as u32,
        type_: VSOCK_TYPE_STREAM,
        op,
        flags: 0,
        buf_alloc: 0,
        fwd_cnt: 0,
    };
    Packet::new(hdr, payload.to_vec()).to_bytes()
}

#[test]
fn test_pack_unpack() {
    let original = CmioYield { dev: 1, cmd: 2, reason: 3, data: 4 };

    let packed = CmioIoDriver::pack(&original);
    let unpacked = CmioIoDriver::unpack(packed);

    assert_eq!(original.dev, unpacked.dev);
    assert_eq!(original.cmd, unpacked.cmd);
    assert_eq!(original.reason, unpacked.reason);
    assert_eq!(original.data, unpacked.data);
}

#[test]
fn lib_test_pack_unpack() {
    let original = CmioYield { dev: 1, cmd: 2, reason: 3, data: 4 };

    let packed = CmioIoDriver::pack(&original);
    let unpacked = CmioIoDriver::unpack(packed);

    assert_eq!(original.dev, unpacked.dev);
    assert_eq!(original.cmd, unpacked.cmd);
    assert_eq!(original.reason, unpacked.reason);
    assert_eq!(original.data, unpacked.data);
}

#[test]
fn pack_puts_dev_in_the_top_byte() {
    let word = CmioIoDriver::pack(&CmioYield {
        dev: 0xAB,
        cmd: 0xCD,
        reason: 0x1234,
        data: 0x89AB_CDEF,
    });
    assert_eq!(word, 0xABCD_1234_89AB_CDEF);
    assert_eq!(CmioIoDriver::pack(&CmioYield { dev: 1, cmd: 2, reason: 3, data: 4 }), 0x0102_0003_0000_0004);
}

#[test]
fn unpack_splits_a_word() {
    assert_eq!(
        CmioIoDriver::unpack(0xABCD_1234_89AB_CDEF),
        CmioYield { dev: 0xAB, cmd: 0xCD, reason: 0x1234, data: 0x89AB_CDEF }
    );
}

#[test]
fn pack_unpack_extremes() {
    for y in [
        CmioYield { dev: 0, cmd: 0, reason: 0, data: 0 },
        CmioYield { dev: 255, cmd: 255, reason: 65535, data: u32::MAX },
        CmioYield { dev: 255, cmd: 0, reason: 65535, data: 0 },
        CmioYield { dev: 0, cmd: 255, reason: 0, data: u32::MAX },
    ] {
        assert_eq!(CmioIoDriver::unpack(CmioIoDriver::pack(&y)), y);
    }
    for word in [0u64, u64::MAX, 0x8000_0000_0000_0001, 0x0100_0000_0000_0000] {
        assert_eq!(CmioIoDriver::pack(&CmioIoDriver::unpack(word)), word);
    }
}

#[test]
fn send_request_checks_the_length() {
    assert_eq!(send_request(4096, 4097, 1), Err(CmioError::InvalidArgument));
    assert_eq!(
        send_request(4096, 4096, 1),
        Ok(CmioYield { dev: HTIF_DEVICE_YIELD, cmd: HTIF_YIELD_CMD_MANUAL, reason: 1, data: 4096 })
    );
    assert_eq!(
        send_request(4096, 0, 7),
        Ok(CmioYield { dev: 2, cmd: 1, reason: 7, data: 0 })
    );
}

#[test]
fn driver_starts_with_zeroed_buffers() {
    let driver = CmioIoDriver::new().unwrap();
    assert_eq!(driver.tx_len(), 4096);
    assert_eq!(driver.rx_len(), 4096);
    assert!(driver.tx_slice().iter().all(|b| *b == 0));
    assert!(driver.rx_slice().iter().all(|b| *b == 0));
}

#[test]
fn driver_tx_buffer_can_be_written() {
    let mut driver = CmioIoDriver::new().unwrap();
    driver.tx_slice_mut()[0] = 42;
    assert_eq!(driver.tx_slice()[0], 42);
    assert_eq!(driver.rx_slice()[0], 0);
}

#[test]
fn driver_yield_leaves_the_tuple() {
    let driver = CmioIoDriver::new().unwrap();
    let mut y = CmioYield { dev: 2, cmd: 1, reason: 1, data: 36 };
    assert_eq!(driver.yield_control(&mut y), Ok(()));
    assert_eq!(y, CmioYield { dev: 2, cmd: 1, reason: 1, data: 36 });
}

#[test]
fn driver_refuses_more_than_the_tx_buffer_holds() {
    let mut driver = CmioIoDriver::new().unwrap();
    assert_eq!(driver.send_cmio(&vec![0u8; 4097], 1), Err(CmioError::InvalidArgument));
    assert_eq!(driver.send_cmio(&[], 1), Ok(Vec::new()));
}

#[test]
fn driver_polls_answer_with_queued_requests_in_order() {
    let mut driver = CmioIoDriver::new().unwrap();
    let first = packet_bytes(VSOCK_OP_REQUEST, 1025, 8080, &[]);
    let second = packet_bytes(VSOCK_OP_REQUEST, 1026, 8081, &[]);
    assert_eq!(driver.send_cmio(&first, 1), Ok(Vec::new()));
    assert_eq!(driver.send_cmio(&second, 1), Ok(Vec::new()));
    assert_eq!(driver.send_cmio(&[], 1), Ok(first));
    assert_eq!(driver.send_cmio(&[], 1), Ok(second));
    assert_eq!(driver.send_cmio(&[], 1), Ok(Vec::new()));
}

#[test]
fn driver_hands_a_response_to_the_request_it_answers() {
    let mut driver = CmioIoDriver::new().unwrap();
    let response = packet_bytes(VSOCK_OP_RESPONSE, 8080, 1025, &[]);
    assert_eq!(driver.send_cmio(&response, 1), Ok(Vec::new()));
    let other = packet_bytes(VSOCK_OP_REQUEST, 2000, 8080, &[]);
    assert_eq!(driver.send_cmio(&other, 1), Ok(Vec::new()));
    let request = packet_bytes(VSOCK_OP_REQUEST, 1025, 8080, &[]);
    assert_eq!(driver.send_cmio(&request, 1), Ok(response));
    assert_eq!(driver.send_cmio(&request, 1), Ok(Vec::new()));
}

#[test]
fn driver_acknowledges_data_and_other_packets() {
    let mut driver = CmioIoDriver::new().unwrap();
    let request = packet_bytes(VSOCK_OP_REQUEST, 1025, 8080, &[]);
    assert_eq!(driver.send_cmio(&request, 1), Ok(Vec::new()));
    assert_eq!(driver.send_cmio(&packet_bytes(VSOCK_OP_RW, 1, 2, b"abc"), 1), Ok(Vec::new()));
    assert_eq!(driver.send_cmio(&packet_bytes(VSOCK_OP_CREDIT_UPDATE, 1, 2, &[]), 1), Ok(Vec::new()));
    // Bytes too short for a header count as a poll.
    assert_eq!(driver.send_cmio(&[1, 2, 3], 1), Ok(request));
}

#[test]
fn yield_commands_by_device_and_command() {
    let y = |dev, cmd, data| CmioYield { dev, cmd, reason: 0, data };
    assert_eq!(handle_yield_response(&y(0, 0, 5)), YieldCommand::SystemInfo);
    assert_eq!(handle_yield_response(&y(0, 1, 5)), YieldCommand::SystemShutdown);
    assert_eq!(handle_yield_response(&y(1, 0, 5)), YieldCommand::NetworkRead(5));
    assert_eq!(handle_yield_response(&y(1, 1, 6)), YieldCommand::NetworkWrite(6));
    assert_eq!(handle_yield_response(&y(2, 0, 7)), YieldCommand::StorageRead(7));
    assert_eq!(handle_yield_response(&y(2, 1, 8)), YieldCommand::StorageWrite(8));
    assert_eq!(handle_yield_response(&y(1, 2, 0)), YieldCommand::UnknownCommand { dev: 1, cmd: 2 });
    assert_eq!(handle_yield_response(&y(3, 0, 0)), YieldCommand::UnknownDevice(3));
}

#[test]
fn a_failed_open_undoes_what_came_before() {
    assert_eq!(
        on_open_failure(OpenStep::OpenDevice, 2),
        OpenFailure { error: CmioError::IoError(2), unmap_tx: false, close_device: false }
    );
    assert_eq!(
        on_open_failure(OpenStep::Setup, 25),
        OpenFailure { error: CmioError::IoError(25), unmap_tx: false, close_device: true }
    );
    assert_eq!(
        on_open_failure(OpenStep::MapTx, 12),
        OpenFailure { error: CmioError::MmapFailed, unmap_tx: false, close_device: true }
    );
    assert_eq!(
        on_open_failure(OpenStep::MapRx, 12),
        OpenFailure { error: CmioError::MmapFailed, unmap_tx: true, close_device: true }
    );
}

#[test]
fn only_the_tx_buffer_is_mapped_writable() {
    let setup = CmioSetup {
        tx: CmioBuffer { data: 0x6000_0000, length: 0x1000 },
        rx: CmioBuffer { data: 0x6000_1000, length: 0x2000 },
    };
    assert_eq!(
        setup.tx_mapping(),
        Mapping { addr: 0x6000_0000, length: 0x1000, writable: true }
    );
    assert_eq!(
        setup.rx_mapping(),
        Mapping { addr: 0x6000_1000, length: 0x2000, writable: false }
    );
}
