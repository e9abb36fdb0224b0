//! The CMIO channel as the guest sees it: a pair of shared buffers and a
//! yield that carries one packed 64-bit tuple. The driver here works on two
//! in-memory buffers and plays the host's side of a vsock handshake; a driver
//! over the character device shares its yield packing and its send checks.

use vstd::prelude::*;
use vstd::slice::slice_to_vec;
use std::collections::HashMap;
use crate::vsock_protocol::{
    decode_header, VirtioVsockHdr, HDR_SIZE, VSOCK_OP_REQUEST, VSOCK_OP_RESPONSE,
};

verus! {

broadcast use vstd::std_specs::hash::group_hash_axioms;

/// The yield device of the host-target interface.
pub const HTIF_DEVICE_YIELD: u8 = 2;

pub const HTIF_YIELD_CMD_AUTOMATIC: u8 = 0;

pub const HTIF_YIELD_CMD_MANUAL: u8 = 1;

pub const HTIF_YIELD_AUTOMATIC_REASON_PROGRESS: u16 = 1;

pub const HTIF_YIELD_AUTOMATIC_REASON_TX_OUTPUT: u16 = 2;

pub const HTIF_YIELD_AUTOMATIC_REASON_TX_REPORT: u16 = 4;

pub const HTIF_YIELD_MANUAL_REASON_RX_ACCEPTED: u16 = 1;

pub const HTIF_YIELD_MANUAL_REASON_RX_REJECTED: u16 = 2;

pub const HTIF_YIELD_MANUAL_REASON_TX_EXCEPTION: u16 = 4;

/// Size of each of the in-memory buffers.
pub const BUFFER_LEN: usize = 4096;

#[derive(Debug, Copy, Clone, PartialEq, Eq, Structural)]
pub enum CmioError {
    /// The caller broke a precondition (a buffer too large for the mapping).
    InvalidArgument,
    /// An operating-system call failed with this error number.
    IoError(i32),
    /// The device opened, but a buffer could not be mapped.
    MmapFailed,
}

/// One of the two shared buffers, as the setup call describes it.
#[derive(Debug, Copy, Clone, PartialEq, Eq, Structural)]
pub struct CmioBuffer {
    pub data: u64,
    pub length: u64,
}

/// What the setup call returns: the TX and the RX buffer, named as the guest
/// sees them.
#[derive(Debug, Copy, Clone, PartialEq, Eq, Structural)]
pub struct CmioSetup {
    pub tx: CmioBuffer,
    pub rx: CmioBuffer,
}

/// The tuple a yield carries.
#[derive(Debug, Copy, Clone, PartialEq, Eq, Structural)]
pub struct CmioYield {
    pub dev: u8,
    pub cmd: u8,
    pub reason: u16,
    pub data: u32,
}

/// The 64-bit word of a yield: `dev` in the most significant byte, then
/// `cmd`, then the 16 bits of `reason`, then the 32 bits of `data`.
pub open spec fn pack_word(y: CmioYield) -> u64 {
    (y.dev as int * 0x100_0000_0000_0000 + y.cmd as int * 0x1_0000_0000_0000 + y.reason as int
        * 0x1_0000_0000 + y.data as int) as u64
}

/// The tuple held by a 64-bit word.
pub open spec fn unpack_word(x: u64) -> CmioYield {
    CmioYield {
        dev: (x / 0x100_0000_0000_0000) as u8,
        cmd: (x / 0x1_0000_0000_0000 % 0x100) as u8,
        reason: (x / 0x1_0000_0000 % 0x1_0000) as u16,
        data: (x % 0x1_0000_0000) as u32,
    }
}

/// Yield packing: unpacking a packed tuple gives the tuple back.
pub proof fn lemma_unpack_pack(y: CmioYield)
    ensures
        unpack_word(pack_word(y)) == y,
{
    let low = y.reason as int * 0x1_0000_0000 + y.data as int;
    let mid = y.cmd as int * 0x1_0000_0000_0000 + low;
    let x = y.dev as int * 0x100_0000_0000_0000 + mid;
    assert(0 <= low < 0x1_0000_0000_0000);
    assert(0 <= mid < 0x100_0000_0000_0000);
    assert(x / 0x100_0000_0000_0000 == y.dev as int);
    assert(x == (y.dev as int * 0x100 + y.cmd as int) * 0x1_0000_0000_0000 + low);
    assert(x / 0x1_0000_0000_0000 == y.dev as int * 0x100 + y.cmd as int);
    assert(x == ((y.dev as int * 0x100 + y.cmd as int) * 0x1_0000 + y.reason as int)
        * 0x1_0000_0000 + y.data as int);
    assert(x / 0x1_0000_0000 == (y.dev as int * 0x100 + y.cmd as int) * 0x1_0000
        + y.reason as int);
    assert(x % 0x1_0000_0000 == y.data as int);
}

/// Every word is the packing of the tuple it unpacks to.
pub proof fn lemma_pack_unpack(x: u64)
    ensures
        pack_word(unpack_word(x)) == x,
{
    let top = x as int / 0x1_0000_0000;
    assert(x as int == top * 0x1_0000_0000 + x as int % 0x1_0000_0000);
    let upper = top / 0x1_0000;
    assert(top == upper * 0x1_0000 + top % 0x1_0000);
    assert(upper == x as int / 0x1_0000_0000_0000);
    let dev = upper / 0x100;
    assert(upper == dev * 0x100 + upper % 0x100);
    assert(dev == x as int / 0x100_0000_0000_0000);
}

/// The yield that sends `tx_len` bytes on `domain`, or why they cannot be
/// sent: more bytes than the TX buffer holds are an invalid argument. The
/// yield's `data` is the length, reduced to 32 bits.
pub fn send_request(tx_capacity: usize, tx_len: usize, domain: u16) -> (request: Result<
    CmioYield,
    CmioError,
>)
    ensures
        request == if tx_len > tx_capacity {
            Err::<CmioYield, CmioError>(CmioError::InvalidArgument)
        } else {
            Ok::<CmioYield, CmioError>(
                CmioYield {
                    dev: HTIF_DEVICE_YIELD,
                    cmd: HTIF_YIELD_CMD_MANUAL,
                    reason: domain,
                    data: (tx_len as int % 0x1_0000_0000) as u32,
                },
            )
        },
{
    if tx_len > tx_capacity {
        return Err(CmioError::InvalidArgument);
    }
    let len: u64 = tx_len as u64;
    Ok(
        CmioYield {
            dev: HTIF_DEVICE_YIELD,
            cmd: HTIF_YIELD_CMD_MANUAL,
            reason: domain,
            data: (len % 0x1_0000_0000) as u32,
        },
    )
}

/// IO driver for CMIO operations over two in-memory buffers. What it answers
/// to `send_cmio` follows the script of a vsock handshake with a host.
pub struct CmioIoDriver {
    tx_buf: Vec<u8>,
    rx_buf: Vec<u8>,
    pending_requests: Vec<Vec<u8>>,
    pending_responses: HashMap<u32, Vec<u8>>,
}

/// What the in-memory driver holds.
pub struct DriverView {
    pub tx: Seq<u8>,
    pub rx: Seq<u8>,
    /// Requests of the host that no poll has fetched yet, oldest first.
    pub pending_requests: Seq<Seq<u8>>,
    /// Responses of the guest, by the port they go to, that no request has
    /// fetched yet.
    pub pending_responses: Map<u32, Seq<u8>>,
}

/// What the scripted host does with `tx` and what it answers.
pub open spec fn scripted_exchange(pre: DriverView, tx: Seq<u8>) -> (DriverView, Seq<u8>) {
    if tx.len() >= HDR_SIZE {
        let hdr = decode_header(tx);
        if hdr.op == VSOCK_OP_RESPONSE {
            (
                DriverView {
                    pending_responses: pre.pending_responses.insert(hdr.dst_port, tx),
                    ..pre
                },
                Seq::<u8>::empty(),
            )
        } else if hdr.op == VSOCK_OP_REQUEST {
            let queued = pre.pending_requests.push(tx);
            if pre.pending_responses.contains_key(hdr.src_port) {
                (
                    DriverView {
                        pending_requests: queued,
                        pending_responses: pre.pending_responses.remove(hdr.src_port),
                        ..pre
                    },
                    pre.pending_responses[hdr.src_port],
                )
            } else {
                (DriverView { pending_requests: queued, ..pre }, Seq::<u8>::empty())
            }
        } else {
            (pre, Seq::<u8>::empty())
        }
    } else if pre.pending_requests.len() > 0 {
        (
            DriverView { pending_requests: pre.pending_requests.drop_first(), ..pre },
            pre.pending_requests[0],
        )
    } else {
        (pre, Seq::<u8>::empty())
    }
}

impl View for CmioIoDriver {
    type V = DriverView;

    closed spec fn view(&self) -> DriverView {
        DriverView {
            tx: self.tx_buf@,
            rx: self.rx_buf@,
            pending_requests: self.pending_requests@.map_values(|r: Vec<u8>| r@),
            pending_responses: self.pending_responses@.map_values(|r: Vec<u8>| r@),
        }
    }
}

impl CmioIoDriver {
    /// Initialize the in-memory CMIO driver: two zeroed buffers of 4096
    /// bytes, nothing pending.
    pub fn new() -> (driver: Result<Self, CmioError>)
        ensures
            driver is Ok,
            driver.unwrap()@ == (DriverView {
                tx: Seq::new(BUFFER_LEN as nat, |i: int| 0u8),
                rx: Seq::new(BUFFER_LEN as nat, |i: int| 0u8),
                pending_requests: Seq::<Seq<u8>>::empty(),
                pending_responses: Map::<u32, Seq<u8>>::empty(),
            }),
    {
        let driver = CmioIoDriver {
            tx_buf: vec![0u8; BUFFER_LEN],
            rx_buf: vec![0u8; BUFFER_LEN],
            pending_requests: Vec::new(),
            pending_responses: HashMap::new(),
        };
        proof {
            assert(driver@.tx =~= Seq::new(BUFFER_LEN as nat, |i: int| 0u8));
            assert(driver@.rx =~= Seq::new(BUFFER_LEN as nat, |i: int| 0u8));
            assert(driver@.pending_requests =~= Seq::<Seq<u8>>::empty());
            assert(driver@.pending_responses =~= Map::<u32, Seq<u8>>::empty());
        }
        Ok(driver)
    }

    /// Yield control to the emulator. Without an emulator the tuple comes
    /// back as it went.
    pub fn yield_control(&self, yield_data: &mut CmioYield) -> (done: Result<(), CmioError>)
        ensures
            done is Ok,
            *final(yield_data) == *old(yield_data),
    {
        Ok(())
    }

    /// Pack a CmioYield struct into a u64.
    pub fn pack(yield_data: &CmioYield) -> (word: u64)
        ensures
            word == pack_word(*yield_data),
    {
        let dev: u64 = yield_data.dev as u64;
        let cmd: u64 = yield_data.cmd as u64;
        let reason: u64 = yield_data.reason as u64;
        let data: u64 = yield_data.data as u64;
        assert((dev << 56) | (cmd << 48) | (reason << 32) | data == dev * 0x100_0000_0000_0000
            + cmd * 0x1_0000_0000_0000 + reason * 0x1_0000_0000 + data) by (bit_vector)
            requires
                dev < 0x100,
                cmd < 0x100,
                reason < 0x1_0000,
                data < 0x1_0000_0000,
        ;
        (dev << 56) | (cmd << 48) | (reason << 32) | data
    }

    /// Unpack a u64 into a CmioYield struct.
    pub fn unpack(x: u64) -> (yield_data: CmioYield)
        ensures
            yield_data == unpack_word(x),
    {
        assert((x >> 56) == x / 0x100_0000_0000_0000) by (bit_vector);
        assert(((x >> 48) & 0xff) == x / 0x1_0000_0000_0000 % 0x100) by (bit_vector);
        assert(((x >> 32) & 0xffff) == x / 0x1_0000_0000 % 0x1_0000) by (bit_vector);
        assert((x & 0xffff_ffff) == x % 0x1_0000_0000) by (bit_vector);
        assert((x >> 56) < 0x100) by (bit_vector);
        CmioYield {
            dev: (x >> 56) as u8,
            cmd: ((x >> 48) & 0xff) as u8,
            reason: ((x >> 32) & 0xffff) as u16,
            data: (x & 0xffff_ffff) as u32,
        }
    }

    /// Get a slice of the TX buffer.
    pub fn tx_slice(&self) -> (tx: &[u8])
        ensures
            tx@ == self@.tx,
    {
        self.tx_buf.as_slice()
    }

    /// Get a mutable slice of the TX buffer.
    pub fn tx_slice_mut(&mut self) -> (tx: &mut [u8])
        ensures
            tx@ == old(self)@.tx,
            final(self)@ == (DriverView { tx: final(tx)@, ..old(self)@ }),
    {
        self.tx_buf.as_mut_slice()
    }

    /// Get a slice of the RX buffer.
    pub fn rx_slice(&self) -> (rx: &[u8])
        ensures
            rx@ == self@.rx,
    {
        self.rx_buf.as_slice()
    }

    /// Get the length of the TX buffer.
    pub fn tx_len(&self) -> (len: usize)
        ensures
            len == self@.tx.len(),
    {
        self.tx_buf.len()
    }

    /// Get the length of the RX buffer.
    pub fn rx_len(&self) -> (len: usize)
        ensures
            len == self@.rx.len(),
    {
        self.rx_buf.len()
    }

    /// Send data via CMIO and receive a response, as the scripted host gives
    /// it. More bytes than the TX buffer holds are refused and change
    /// nothing.
    pub fn send_cmio(&mut self, tx_data: &[u8], domain: u16) -> (reply: Result<Vec<u8>, CmioError>)
        ensures
            tx_data@.len() > old(self)@.tx.len() ==> reply == Err::<Vec<u8>, CmioError>(
                CmioError::InvalidArgument,
            ) && final(self)@ == old(self)@,
            tx_data@.len() <= old(self)@.tx.len() ==> reply is Ok && (
            final(self)@,
            reply.unwrap()@,
        ) == scripted_exchange(old(self)@, tx_data@),
    {
        if tx_data.len() > self.tx_len() {
            return Err(CmioError::InvalidArgument);
        }
        let ghost pre = self@;
        if let Some(hdr) = VirtioVsockHdr::from_bytes(tx_data) {
            if hdr.op == VSOCK_OP_RESPONSE {
                self.pending_responses.insert(hdr.dst_port, slice_to_vec(tx_data));
                proof {
                    assert(self@.pending_responses =~= pre.pending_responses.insert(
                        hdr.dst_port,
                        tx_data@,
                    ));
                }
                return Ok(Vec::new());
            } else if hdr.op == VSOCK_OP_REQUEST {
                self.pending_requests.push(slice_to_vec(tx_data));
                proof {
                    assert(self@.pending_requests =~= pre.pending_requests.push(tx_data@));
                }
                let fetched = self.pending_responses.remove(&hdr.src_port);
                return match fetched {
                    Some(response) => {
                        proof {
                            assert(self@.pending_responses =~= pre.pending_responses.remove(
                                hdr.src_port,
                            ));
                        }
                        Ok(response)
                    },
                    None => {
                        proof {
                            assert(self@.pending_responses =~= pre.pending_responses);
                        }
                        Ok(Vec::new())
                    },
                };
            } else {
                return Ok(Vec::new());
            }
        }
        if self.pending_requests.len() > 0 {
            let request = self.pending_requests.remove(0);
            proof {
                assert(self@.pending_requests =~= pre.pending_requests.drop_first());
            }
            return Ok(request);
        }
        Ok(Vec::new())
    }
}

/// The steps of opening the device, in order.
#[derive(Debug, Copy, Clone, PartialEq, Eq, Structural)]
pub enum OpenStep {
    /// Opening the character device.
    OpenDevice,
    /// The setup call that describes the two buffers.
    Setup,
    /// Mapping the TX buffer.
    MapTx,
    /// Mapping the RX buffer.
    MapRx,
}

/// What a failed step of opening the device leads to: the error to return,
/// and what has to be undone first.
#[derive(Debug, Copy, Clone, PartialEq, Eq, Structural)]
pub struct OpenFailure {
    pub error: CmioError,
    /// Whether the TX buffer is mapped and has to be unmapped.
    pub unmap_tx: bool,
    /// Whether the device is open and has to be closed.
    pub close_device: bool,
}

/// A buffer to map, shared with the emulator.
#[derive(Debug, Copy, Clone, PartialEq, Eq, Structural)]
pub struct Mapping {
    pub addr: u64,
    pub length: u64,
    /// Whether the host writes to the buffer, too.
    pub writable: bool,
}

/// What follows when `step` fails with the error number `errno`: a failed
/// open or setup is an I/O error, a failed mapping is `MmapFailed`, and
/// whatever the earlier steps set up is undone.
pub open spec fn open_failure(step: OpenStep, errno: i32) -> OpenFailure {
    match step {
        OpenStep::OpenDevice => OpenFailure {
            error: CmioError::IoError(errno),
            unmap_tx: false,
            close_device: false,
        },
        OpenStep::Setup => OpenFailure {
            error: CmioError::IoError(errno),
            unmap_tx: false,
            close_device: true,
        },
        OpenStep::MapTx => OpenFailure {
            error: CmioError::MmapFailed,
            unmap_tx: false,
            close_device: true,
        },
        OpenStep::MapRx => OpenFailure {
            error: CmioError::MmapFailed,
            unmap_tx: true,
            close_device: true,
        },
    }
}

/// Decides what follows when a step of opening the device fails.
pub fn on_open_failure(step: OpenStep, errno: i32) -> (failure: OpenFailure)
    ensures
        failure == open_failure(step, errno),
{
    match step {
        OpenStep::OpenDevice => OpenFailure {
            error: CmioError::IoError(errno),
            unmap_tx: false,
            close_device: false,
        },
        OpenStep::Setup => OpenFailure {
            error: CmioError::IoError(errno),
            unmap_tx: false,
            close_device: true,
        },
        OpenStep::MapTx => OpenFailure {
            error: CmioError::MmapFailed,
            unmap_tx: false,
            close_device: true,
        },
        OpenStep::MapRx => OpenFailure {
            error: CmioError::MmapFailed,
            unmap_tx: true,
            close_device: true,
        },
    }
}

impl CmioSetup {
    /// The mapping of the TX buffer: the host reads and writes it.
    pub fn tx_mapping(&self) -> (mapping: Mapping)
        ensures
            mapping == (Mapping { addr: self.tx.data, length: self.tx.length, writable: true }),
    {
        Mapping { addr: self.tx.data, length: self.tx.length, writable: true }
    }

    /// The mapping of the RX buffer: the host only reads it.
    pub fn rx_mapping(&self) -> (mapping: Mapping)
        ensures
            mapping == (Mapping { addr: self.rx.data, length: self.rx.length, writable: false }),
    {
        Mapping { addr: self.rx.data, length: self.rx.length, writable: false }
    }
}

/// What a yield asks a guest agent for, by device and command.
#[derive(Debug, Copy, Clone, PartialEq, Eq, Structural)]
pub enum YieldCommand {
    /// Device 0, command 0.
    SystemInfo,
    /// Device 0, command 1: the agent is to exit.
    SystemShutdown,
    /// Device 1, command 0, with the length to read.
    NetworkRead(u32),
    /// Device 1, command 1, with the length to write.
    NetworkWrite(u32),
    /// Device 2, command 0, with the offset to read at.
    StorageRead(u32),
    /// Device 2, command 1, with the offset to write at.
    StorageWrite(u32),
    /// A known device with a command it does not have.
    UnknownCommand { dev: u8, cmd: u8 },
    /// A device above 2.
    UnknownDevice(u8),
}

/// The command that a yield tuple stands for.
pub open spec fn yield_command(y: CmioYield) -> YieldCommand {
    if y.dev > 2 {
        YieldCommand::UnknownDevice(y.dev)
    } else if y.cmd > 1 {
        YieldCommand::UnknownCommand { dev: y.dev, cmd: y.cmd }
    } else if y.dev == 0 {
        if y.cmd == 0 {
            YieldCommand::SystemInfo
        } else {
            YieldCommand::SystemShutdown
        }
    } else if y.dev == 1 {
        if y.cmd == 0 {
            YieldCommand::NetworkRead(y.data)
        } else {
            YieldCommand::NetworkWrite(y.data)
        }
    } else {
        if y.cmd == 0 {
            YieldCommand::StorageRead(y.data)
        } else {
            YieldCommand::StorageWrite(y.data)
        }
    }
}

/// Reads a yield tuple as a command.
pub fn handle_yield_response(yield_data: &CmioYield) -> (command: YieldCommand)
    ensures
        command == yield_command(*yield_data),
{
    match yield_data.dev {
        0 => handle_system_command(yield_data),
        1 => handle_network_command(yield_data),
        2 => handle_storage_command(yield_data),
        _ => YieldCommand::UnknownDevice(yield_data.dev),
    }
}

fn handle_system_command(yield_data: &CmioYield) -> (command: YieldCommand)
    requires
        yield_data.dev == 0,
    ensures
        command == yield_command(*yield_data),
{
    match yield_data.cmd {
        0 => YieldCommand::SystemInfo,
        1 => YieldCommand::SystemShutdown,
        _ => YieldCommand::UnknownCommand { dev: yield_data.dev, cmd: yield_data.cmd },
    }
}

fn handle_network_command(yield_data: &CmioYield) -> (command: YieldCommand)
    requires
        yield_data.dev == 1,
    ensures
        command == yield_command(*yield_data),
{
    match yield_data.cmd {
        0 => YieldCommand::NetworkRead(yield_data.data),
        1 => YieldCommand::NetworkWrite(yield_data.data),
        _ => YieldCommand::UnknownCommand { dev: yield_data.dev, cmd: yield_data.cmd },
    }
}

fn handle_storage_command(yield_data: &CmioYield) -> (command: YieldCommand)
    requires
        yield_data.dev == 2,
    ensures
        command == yield_command(*yield_data),
{
    match yield_data.cmd {
        0 => YieldCommand::StorageRead(yield_data.data),
        1 => YieldCommand::StorageWrite(yield_data.data),
        _ => YieldCommand::UnknownCommand { dev: yield_data.dev, cmd: yield_data.cmd },
    }
}

} // verus!
