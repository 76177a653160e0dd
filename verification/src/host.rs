//! The per-bus host object: address allocation, device worker slots,
//! endpoint handles, and root-hub event handling.
//!
//! The host-controller driver itself (register access, DMA, transfer
//! futures) stands outside the library. Every port-feature value or
//! transfer result the logic depends on is handed in as a plain value,
//! and every decision comes back out as a plain value.

use vstd::prelude::*;
use crate::pool::AddressPool;
use crate::setup::DeviceRequest;
use crate::setup::REQ_SET_ADDRESS;
use crate::setup::REQ_GET_DESCRIPTOR;

verus! {

/// Per-port feature and change bits of USB 2.0 chapter 11.
#[derive(Clone, Copy, Debug, PartialEq, Eq, Structural)]
pub enum PortFeature {
    Connection,
    Enable,
    Suspend,
    OverCurrent,
    Reset,
    Power,
    LowSpeed,
    CConnection,
    CEnable,
    CSuspend,
    COverCurrent,
    CReset,
    Test,
    Indicator,
}

/// A device address paired with an endpoint number.
#[derive(Clone, Copy, Debug, PartialEq, Eq, Structural)]
pub struct EndpointAddr {
    pub dev: u8,
    pub ep: u8,
}

impl EndpointAddr {
    /// The device address.
    pub open spec fn spec_dev(self) -> u8 {
        self.dev
    }

    /// The endpoint number within the device.
    pub open spec fn spec_ep(self) -> u8 {
        self.ep
    }

    /// Address endpoint `ep` of device `dev`.
    pub fn new(dev: u8, ep: u8) -> (r: EndpointAddr)
        ensures
            r.spec_dev() == dev,
            r.spec_ep() == ep,
    {
        EndpointAddr { dev, ep }
    }
}

/// The SETUP packet of a GET_DESCRIPTOR read for descriptor
/// `(ty, index)` expecting `exp_length` bytes: an IN request whose
/// class/recipient bits come out of the high byte of `ty`.
pub open spec fn spec_get_descriptor_request(ty: u16, index: u8, exp_length: u16) -> DeviceRequest {
    DeviceRequest {
        req_type: 0x80 | ((((ty >> 8) as u8) & 0x3) << 5) | (((ty >> 12) as u8) & 3),
        req_num: REQ_GET_DESCRIPTOR,
        value: (ty << 8) | index as u16,
        index: 0,
        length: exp_length,
    }
}

/// The SETUP packet of SET_ADDRESS(`addr`): an OUT request with the new
/// address as its value word and no data stage.
pub open spec fn spec_set_address_request(addr: u8) -> DeviceRequest {
    DeviceRequest {
        req_type: 0x00,
        req_num: REQ_SET_ADDRESS,
        value: addr as u16,
        index: 0,
        length: 0,
    }
}

/// Build a GET_DESCRIPTOR SETUP packet.
pub fn get_descriptor_request(ty: u16, index: u8, exp_length: u16) -> (r: DeviceRequest)
    ensures
        r == spec_get_descriptor_request(ty, index, exp_length),
{
    DeviceRequest {
        req_type: 0x80 | ((((ty >> 8) as u8) & 0x3) << 5) | (((ty >> 12) as u8) & 3),
        req_num: REQ_GET_DESCRIPTOR,
        value: (ty << 8) | index as u16,
        index: 0,
        length: exp_length,
    }
}

/// Build a SET_ADDRESS SETUP packet.
pub fn set_address_request(addr: u8) -> (r: DeviceRequest)
    ensures
        r == spec_set_address_request(addr),
{
    DeviceRequest {
        req_type: 0x00,
        req_num: REQ_SET_ADDRESS,
        value: addr as u16,
        index: 0,
        length: 0,
    }
}

/// A control endpoint handle: where it points and the packet size its
/// transfers are split at. The driver-side handle lives outside the
/// library.
#[derive(Clone, Copy, Debug, PartialEq, Eq, Structural)]
pub struct ControlEndpoint {
    pub addr: EndpointAddr,
    pub max_packet_size: usize,
}

impl ControlEndpoint {
    /// A control endpoint on `(addr, ep_num)`.
    pub fn new(addr: u8, ep_num: u8, max_packet_size: usize) -> (r: ControlEndpoint)
        ensures
            r.addr.spec_dev() == addr,
            r.addr.spec_ep() == ep_num,
            r.max_packet_size == max_packet_size,
    {
        ControlEndpoint { addr: EndpointAddr::new(addr, ep_num), max_packet_size }
    }

    /// The SETUP packet of a GET_DESCRIPTOR read: an IN request whose
    /// type bits come out of the high byte of `ty`, asking for
    /// descriptor `(ty, index)` with `exp_length` bytes expected. The
    /// transfer itself is the embedder's; the returned bytes parse with
    /// the descriptor parser.
    pub fn read_descriptor_raw(&self, ty: u16, index: u8, exp_length: u16) -> (r: DeviceRequest)
        ensures
            r == spec_get_descriptor_request(ty, index, exp_length),
    {
        DeviceRequest {
            req_type: 0x80 | ((((ty >> 8) as u8) & 0x3) << 5) | (((ty >> 12) as u8) & 3),
            req_num: REQ_GET_DESCRIPTOR,
            value: (ty << 8) | index as u16,
            index: 0,
            length: exp_length,
        }
    }

    /// The SETUP packet of an OUT request carrying `data_len` bytes.
    pub fn send_request(&self, request_type: u8, request_num: u8, value: u16, index: u16,
        data_len: u16) -> (r: DeviceRequest)
        ensures
            r == (DeviceRequest {
                req_type: request_type,
                req_num: request_num,
                value,
                index,
                length: data_len,
            }),
    {
        DeviceRequest {
            req_type: request_type,
            req_num: request_num,
            value,
            index,
            length: data_len,
        }
    }
}

/// An interrupt-IN endpoint handle with its polling interval.
#[derive(Clone, Copy, Debug, PartialEq, Eq, Structural)]
pub struct InterruptEndpoint {
    pub addr: EndpointAddr,
    pub max_packet_size: usize,
    pub polling_interval: usize,
}

impl InterruptEndpoint {
    /// An interrupt endpoint on `(addr, ep_num)`.
    pub fn new(addr: u8, ep_num: u8, max_packet_size: usize, polling_interval: usize) -> (r:
        InterruptEndpoint)
        ensures
            r.addr.spec_dev() == addr,
            r.addr.spec_ep() == ep_num,
            r.max_packet_size == max_packet_size,
            r.polling_interval == polling_interval,
    {
        InterruptEndpoint { addr: EndpointAddr::new(addr, ep_num), max_packet_size, polling_interval }
    }
}

/// A bulk endpoint handle with its direction.
#[derive(Clone, Copy, Debug, PartialEq, Eq, Structural)]
pub struct BulkEndpoint {
    pub addr: EndpointAddr,
    pub dir_is_in: bool,
    pub max_packet_size: usize,
}

impl BulkEndpoint {
    /// A bulk endpoint on `(addr, ep_num)` with the given direction.
    pub fn new(addr: u8, ep_num: u8, dir_is_in: bool, max_packet_size: usize) -> (r: BulkEndpoint)
        ensures
            r.addr.spec_dev() == addr,
            r.addr.spec_ep() == ep_num,
            r.dir_is_in == dir_is_in,
            r.max_packet_size == max_packet_size,
    {
        BulkEndpoint { addr: EndpointAddr::new(addr, ep_num), dir_is_in, max_packet_size }
    }
}

/// A typed endpoint handle as enumeration produces them from endpoint
/// descriptors.
#[derive(Clone, Copy, Debug, PartialEq, Eq, Structural)]
pub enum Endpoint {
    Control(ControlEndpoint),
    Interrupt(InterruptEndpoint),
    Bulk(BulkEndpoint),
}

/// Placeholder for per-root-port state; its only behaviour today is to
/// take part in connect handling through the host.
pub struct PortState {}

impl PortState {
    /// A fresh port record.
    pub fn new() -> PortState {
        PortState {  }
    }
}

/// Exclusive use of endpoint zero at address 0, granted by the host for
/// the duration of one enumeration's set-address phase.
pub struct AddressZeroHandle {
    claimed: bool,
}

impl AddressZeroHandle {
    /// The handle stands for a live claim.
    pub closed spec fn wf(self) -> bool {
        self.claimed
    }

    /// The SETUP packet that assigns `addr` to the device listening on
    /// address 0: SET_ADDRESS with the address as its value word and no
    /// data stage.
    pub fn send_setup_address(&self, addr: u8) -> (r: DeviceRequest)
        ensures
            r == spec_set_address_request(addr),
    {
        DeviceRequest {
            req_type: 0x00,
            req_num: REQ_SET_ADDRESS,
            value: addr as u16,
            index: 0,
            length: 0,
        }
    }
}

/// What the root-event handler decided for a change-signalled port.
#[derive(Clone, Copy, Debug, PartialEq, Eq, Structural)]
pub enum RootEvent {
    /// No connection change was flagged; nothing to do.
    NoChange,
    /// A device appeared: the change bit is to be cleared, and when an
    /// address could be allocated, a device worker for it now occupies
    /// its slot.
    Connected { addr: Option<u8> },
    /// The device went away: the change bit is to be cleared and the
    /// port's devices are to be torn down by the embedder. The host
    /// keeps no per-port device record yet, so nothing changes here.
    Disconnected,
}

/// A host/bus: the address pool, the endpoint-zero handle used during
/// enumeration, per-root-port state, and one worker slot per assignable
/// address.
pub struct Host {
    addresses: AddressPool,
    endpoint_zero_handle: ControlEndpoint,
    root_ports: Vec<PortState>,
    device_workers: Vec<bool>,
    addr0_claimed: bool,
}

impl Host {
    /// The address pool.
    pub closed spec fn spec_addresses(self) -> AddressPool {
        self.addresses
    }

    /// EP0 at address 0, used while a new device has no address yet.
    pub closed spec fn spec_ep0(self) -> ControlEndpoint {
        self.endpoint_zero_handle
    }

    /// The endpoint-zero handle.
    pub fn endpoint_zero(&self) -> (r: ControlEndpoint)
        ensures
            r == self.spec_ep0(),
    {
        self.endpoint_zero_handle
    }

    /// Number of root ports.
    pub closed spec fn spec_nports(self) -> int {
        self.root_ports@.len() as int
    }

    /// Whether the device-worker slot for `addr` is occupied.
    pub closed spec fn worker_at(self, addr: int) -> bool
        recommends
            0 <= addr < 255,
    {
        self.device_workers@[addr]
    }

    /// Whether the address-zero guard is currently held.
    pub closed spec fn spec_addr0_claimed(self) -> bool {
        self.addr0_claimed
    }

    /// Host invariant: the pool is well formed, there are 255 worker
    /// slots, slot 0 is never occupied, and an occupied slot's address
    /// is live in the pool.
    pub open spec fn wf(self) -> bool {
        &&& self.spec_addresses().wf()
        &&& self.device_workers_len() == 255
        &&& !self.worker_at(0)
        &&& forall|a: int|
            0 <= a < 255 && #[trigger] self.worker_at(a) ==> 1 <= a <= 127
                && self.spec_addresses().is_used(a as u8)
    }

    /// Number of device-worker slots.
    pub closed spec fn device_workers_len(self) -> int {
        self.device_workers@.len() as int
    }

    /// A fresh host for a bus with `nports` root ports: empty pool,
    /// endpoint zero on `(0, 0)` with an 8-to-64-byte default packet
    /// size, all worker slots free.
    pub fn new(nports: u8) -> (r: Host)
        ensures
            r.wf(),
            r.spec_nports() == nports,
            r.spec_addresses().next_id() == 1,
            forall|id: u8| !r.spec_addresses().is_used(id),
            forall|a: int| 0 <= a < 255 ==> !r.worker_at(a),
            !r.spec_addr0_claimed(),
            r.spec_ep0().addr.spec_dev() == 0,
            r.spec_ep0().addr.spec_ep() == 0,
            r.spec_ep0().max_packet_size == 64,
    {
        let mut root_ports: Vec<PortState> = Vec::new();
        let mut k: usize = 0;
        while k < nports as usize
            invariant
                k <= nports as usize,
                root_ports@.len() == k,
            decreases nports as usize - k,
        {
            root_ports.push(PortState::new());
            k = k + 1;
        }
        let mut device_workers: Vec<bool> = Vec::new();
        let mut j: usize = 0;
        while j < 255
            invariant
                j <= 255,
                device_workers@.len() == j,
                forall|a: int| 0 <= a < j ==> !device_workers@[a],
            decreases 255 - j,
        {
            device_workers.push(false);
            j = j + 1;
        }
        Host {
            addresses: AddressPool::new(),
            endpoint_zero_handle: ControlEndpoint::new(0, 0, 64),
            root_ports,
            device_workers,
            addr0_claimed: false,
        }
    }

    /// Make room for a new device: allocate an address and occupy its
    /// worker slot. With the pool exhausted nothing changes and the
    /// device is silently dropped, as the enumeration policy chooses.
    pub fn add_device(&mut self) -> (r: Option<u8>)
        requires
            old(self).wf(),
        ensures
            final(self).wf(),
            final(self).spec_nports() == old(self).spec_nports(),
            final(self).spec_addr0_claimed() == old(self).spec_addr0_claimed(),
            match r {
                Some(a) => {
                    &&& AddressPool::alloc_granted(
                        old(self).spec_addresses(),
                        final(self).spec_addresses(),
                        a,
                    )
                    &&& !old(self).worker_at(a as int)
                    &&& final(self).worker_at(a as int)
                    &&& forall|i: int|
                        0 <= i < 255 && i != a ==> final(self).worker_at(i) == old(
                            self,
                        ).worker_at(i)
                },
                None => {
                    &&& *final(self) == *old(self)
                    &&& old(self).spec_addresses().pool_full()
                },
            },
    {
        match self.addresses.allocate() {
            Some(v) => {
                let idx = v as usize;
                self.device_workers[idx] = true;
                proof {
                    assert forall|a: int|
                        0 <= a < 255 && #[trigger] self.worker_at(a) implies 1 <= a <= 127
                        && self.spec_addresses().is_used(a as u8) by {
                        if a != v {
                            assert(old(self).worker_at(a));
                        }
                    }
                }
                Some(v)
            },
            None => None,
        }
    }

    /// A device worker finished: free its slot. The address stays
    /// allocated until explicitly released.
    pub fn worker_complete(&mut self, addr: u8)
        requires
            old(self).wf(),
            1 <= addr <= 127,
        ensures
            final(self).wf(),
            !final(self).worker_at(addr as int),
            forall|i: int|
                0 <= i < 255 && i != addr ==> final(self).worker_at(i) == old(self).worker_at(i),
            final(self).spec_addresses() == old(self).spec_addresses(),
            final(self).spec_nports() == old(self).spec_nports(),
            final(self).spec_addr0_claimed() == old(self).spec_addr0_claimed(),
    {
        let idx = addr as usize;
        self.device_workers[idx] = false;
        proof {
            assert forall|a: int|
                0 <= a < 255 && #[trigger] self.worker_at(a) implies 1 <= a <= 127
                && self.spec_addresses().is_used(a as u8) by {
                assert(old(self).worker_at(a));
            }
        }
    }

    /// Take exclusive use of endpoint zero for a set-address phase. Only
    /// one enumeration may hold it at a time.
    pub fn get_address_zero(&mut self) -> (r: AddressZeroHandle)
        requires
            old(self).wf(),
            !old(self).spec_addr0_claimed(),
        ensures
            final(self).wf(),
            final(self).spec_addr0_claimed(),
            r.wf(),
            final(self).spec_addresses() == old(self).spec_addresses(),
            final(self).spec_nports() == old(self).spec_nports(),
            forall|i: int| 0 <= i < 255 ==> final(self).worker_at(i) == old(self).worker_at(i),
    {
        self.addr0_claimed = true;
        proof {
            assert forall|a: int|
                0 <= a < 255 implies #[trigger] self.worker_at(a) == old(self).worker_at(a) by {}
            assert(self.spec_addresses() == old(self).spec_addresses());
        }
        AddressZeroHandle { claimed: true }
    }

    /// Give endpoint zero back once the new device answers on its own
    /// address.
    pub fn release_address_zero(&mut self, handle: AddressZeroHandle)
        requires
            old(self).wf(),
            handle.wf(),
            old(self).spec_addr0_claimed(),
        ensures
            final(self).wf(),
            !final(self).spec_addr0_claimed(),
            final(self).spec_addresses() == old(self).spec_addresses(),
            final(self).spec_nports() == old(self).spec_nports(),
            forall|i: int| 0 <= i < 255 ==> final(self).worker_at(i) == old(self).worker_at(i),
    {
        let _ = handle;
        self.addr0_claimed = false;
        proof {
            assert forall|a: int|
                0 <= a < 255 implies #[trigger] self.worker_at(a) == old(self).worker_at(a) by {}
            assert(self.spec_addresses() == old(self).spec_addresses());
        }
    }

    /// React to a root-port change event, given the two feature bits the
    /// driver reports: with no connection change, nothing happens; with
    /// a connect, an address is allocated and its worker slot occupied
    /// (or the device is dropped on exhaustion); with a disconnect, the
    /// embedder is told to tear the port down.
    pub fn handle_root_event(&mut self, port_idx: usize, cconnection: bool, connection: bool)
        -> (r: RootEvent)
        requires
            old(self).wf(),
            port_idx < old(self).spec_nports(),
        ensures
            final(self).wf(),
            final(self).spec_nports() == old(self).spec_nports(),
            final(self).spec_addr0_claimed() == old(self).spec_addr0_claimed(),
            match r {
                RootEvent::NoChange => !cconnection && *final(self) == *old(self),
                RootEvent::Connected { addr } => {
                    &&& cconnection && connection
                    &&& match addr {
                        Some(a) => {
                            &&& AddressPool::alloc_granted(
                                old(self).spec_addresses(),
                                final(self).spec_addresses(),
                                a,
                            )
                            &&& final(self).worker_at(a as int)
                            &&& forall|i: int|
                                0 <= i < 255 && i != a ==> final(self).worker_at(i) == old(
                                    self,
                                ).worker_at(i)
                        },
                        None => *final(self) == *old(self) && old(
                            self,
                        ).spec_addresses().pool_full(),
                    }
                },
                RootEvent::Disconnected => cconnection && !connection && *final(self) == *old(
                    self,
                ),
            },
    {
        if cconnection {
            if connection {
                let addr = self.add_device();
                RootEvent::Connected { addr }
            } else {
                RootEvent::Disconnected
            }
        } else {
            RootEvent::NoChange
        }
    }
}

} // verus!
