//! Device enumeration: decoding endpoint descriptors, grouping a
//! configuration blob into interfaces, binding drivers, and the
//! per-device worker protocol.
//!
//! A configuration descriptor blob concatenates the 9-byte header with
//! interface and endpoint records. Each interface record opens a group
//! whose members are the records up to the next interface record; the
//! endpoints of the group become typed endpoint handles.

use vstd::prelude::*;
use crate::descriptors::{
    DescriptorAny, DescriptorEndpoint, DescriptorInterface, DescView, ParseError, parse_record,
    spec_parse_all, spec_parse_record,
};
use crate::host::{
    Endpoint, ControlEndpoint, InterruptEndpoint, BulkEndpoint, PortFeature,
    spec_get_descriptor_request, spec_set_address_request, get_descriptor_request,
    set_address_request,
};
use crate::descriptors::{DescriptorDevice, DescriptorConfiguration};
use crate::setup::DeviceRequest;

verus! {

/// Why an enumeration step failed. Enumeration errors end the device's
/// worker but leave the host running.
#[derive(Clone, Copy, Debug, PartialEq, Eq, Structural)]
pub enum EnumerationError {
    /// A descriptor was short or malformed.
    Parse,
    /// The device offers an endpoint kind the stack does not drive
    /// (isochronous, or interrupt-OUT); the stack declines the device
    /// rather than guessing.
    UnsupportedEndpoint,
    /// A transfer failed at the controller.
    TransferFailed,
    /// A string descriptor held invalid UTF-16.
    StringDecode,
}

/// Transfer type of an endpoint, from the low attribute bits.
#[derive(Clone, Copy, Debug, PartialEq, Eq, Structural)]
pub enum EndpointType {
    Control,
    Isoch,
    Bulk,
    Interrupt,
}

/// The plain facts an endpoint descriptor carries.
#[derive(Clone, Copy, Debug, PartialEq, Eq, Structural)]
pub struct EndpointInfo {
    pub num: u8,
    pub dir_in: bool,
    pub ty: EndpointType,
    pub max_packet_size: u16,
    pub poll_period: u8,
}

/// The transfer type encoded by attribute bits `t` (already masked to
/// two bits).
pub open spec fn spec_endpoint_type(t: u8) -> EndpointType {
    if t == 0 {
        EndpointType::Control
    } else if t == 1 {
        EndpointType::Isoch
    } else if t == 2 {
        EndpointType::Bulk
    } else {
        EndpointType::Interrupt
    }
}

/// Decode an endpoint descriptor: the endpoint number is the low four
/// address bits, IN is address bit 7, the type is the low two attribute
/// bits, and the packet size is the low 11 bits of the two-byte field.
pub fn decode_endpoint(d: &DescriptorEndpoint) -> (r: EndpointInfo)
    ensures
        r.num == d.address & 0xF,
        r.dir_in == (d.address & 0x80 != 0),
        r.ty == spec_endpoint_type(d.attributes & 0x3),
        r.max_packet_size == (d.max_packet_size.0 as u16) | (((d.max_packet_size.1 as u16)
            & 0x03) << 8),
        r.poll_period == d.max_polling_interval,
{
    let t = d.attributes & 0x3;
    proof {
        let a = d.attributes;
        assert(a & 0x3 < 4) by (bit_vector);
    }
    EndpointInfo {
        num: d.address & 0xF,
        dir_in: d.address & 0x80 != 0,
        ty: if t == 0 {
            EndpointType::Control
        } else if t == 1 {
            EndpointType::Isoch
        } else if t == 2 {
            EndpointType::Bulk
        } else {
            EndpointType::Interrupt
        },
        max_packet_size: (d.max_packet_size.0 as u16) | (((d.max_packet_size.1 as u16) & 0x03)
            << 8),
        poll_period: d.max_polling_interval,
    }
}

/// The driver-lookup key of an interface:
/// `(class << 16) | (subclass << 8) | protocol`.
pub open spec fn spec_full_class(d: DescriptorInterface) -> u32 {
    ((d.interface_class as u32) << 16) | ((d.interface_sub_class as u32) << 8)
        | (d.interface_protocol as u32)
}

/// Compute an interface's driver-lookup key.
pub fn full_class(d: &DescriptorInterface) -> (r: u32)
    ensures
        r == spec_full_class(*d),
{
    ((d.interface_class as u32) << 16) | ((d.interface_sub_class as u32) << 8)
        | (d.interface_protocol as u32)
}

/// An interface record with the records (and their raw bytes) that
/// follow it up to the next interface record.
#[derive(Clone, Debug, PartialEq, Eq)]
pub struct InterfaceGroup {
    pub desc: DescriptorInterface,
    pub records: Vec<DescriptorAny>,
    pub raw: Vec<u8>,
}

/// The views of a record list.
pub open spec fn recs_view(v: Seq<DescriptorAny>) -> Seq<DescView> {
    Seq::new(v.len(), |i: int| v[i]@)
}

/// Interface grouping over a parsed record sequence, carrying the group
/// currently open: records before the first interface record are
/// dropped, each interface record opens a group, every other record
/// joins the open group.
pub open spec fn spec_group_acc(
    records: Seq<DescView>,
    cur: Option<(DescriptorInterface, Seq<DescView>)>,
) -> Seq<(DescriptorInterface, Seq<DescView>)>
    decreases records.len(),
{
    if records.len() == 0 {
        match cur {
            None => Seq::empty(),
            Some(g) => seq![g],
        }
    } else {
        match records[0] {
            DescView::Interface(v2) => (match cur {
                None => Seq::empty(),
                Some(g) => seq![g],
            }) + spec_group_acc(records.skip(1), Some((v2, Seq::empty()))),
            other => spec_group_acc(
                records.skip(1),
                match cur {
                    None => None,
                    Some(g) => Some((g.0, g.1.push(other))),
                },
            ),
        }
    }
}

/// Interface grouping of a record sequence.
pub open spec fn spec_group(records: Seq<DescView>) -> Seq<(DescriptorInterface, Seq<DescView>)> {
    spec_group_acc(records, None)
}

/// A record parses the same from any byte sequence that agrees with the
/// original on the record's own bytes and is at least as long.
proof fn lemma_parse_record_agree(b: Seq<u8>, c: Seq<u8>)
    requires
        spec_parse_record(b) matches Some(p) && p is Ok,
        spec_parse_record(b) matches Some(Ok(p)) ==> c.len() >= p.1 && (forall|i: int|
            0 <= i < p.1 ==> c[i] == b[i]) && c.len() >= 2,
    ensures
        spec_parse_record(c) == spec_parse_record(b),
{
    let (d, n) = spec_parse_record(b)->Some_0->Ok_0;
    assert(c[0] == b[0] && c[1] == b[1]);
    match d {
        DescView::String(v) => {
            assert(spec_parse_record(c) matches Some(Ok(q)) && q.1 == n);
            let u1 = crate::descriptors::spec_parse_string_units(b, n);
            let u2 = crate::descriptors::spec_parse_string_units(c, n);
            assert forall|i: int| 0 <= i < u1.len() implies u2[i] == u1[i] by {
                assert(c[2 + 2 * i] == b[2 + 2 * i]);
                assert(c[3 + 2 * i] == b[3 + 2 * i]);
            }
            assert(u2 =~= u1);
        },
        DescView::Unknown(data) => {
            assert(c.take(n) =~= b.take(n));
        },
        _ => {},
    }
}

/// Appending bytes after a cleanly parsing blob parses to the blob's
/// records followed by the appended bytes' records (or the appended
/// bytes' error).
proof fn lemma_parse_all_append(b1: Seq<u8>, b2: Seq<u8>)
    requires
        spec_parse_all(b1) is Ok,
    ensures
        spec_parse_all(b1 + b2) == (match (spec_parse_all(b1), spec_parse_all(b2)) {
            (Ok(s1), Ok(s2)) => Ok::<Seq<DescView>, ParseError>(s1 + s2),
            (_, Err(e)) => Err::<Seq<DescView>, ParseError>(e),
            (Err(e), _) => Err::<Seq<DescView>, ParseError>(e),
        }),
    decreases b1.len(),
{
    if b1.len() == 0 {
        assert(b1 + b2 =~= b2);
        assert(spec_parse_all(b1) == Ok::<Seq<DescView>, ParseError>(Seq::empty()));
        match spec_parse_all(b2) {
            Ok(s2) => {
                assert(Seq::<DescView>::empty() + s2 =~= s2);
            },
            Err(_) => {},
        }
    } else {
        let pr = spec_parse_record(b1);
        match pr {
            Some(Ok((d, n))) => {
                lemma_parse_record_agree(b1, b1 + b2);
                assert((b1 + b2).skip(n) =~= b1.skip(n) + b2);
                lemma_parse_all_append(b1.skip(n), b2);
                match (spec_parse_all(b1.skip(n)), spec_parse_all(b2)) {
                    (Ok(t1), Ok(s2)) => {
                        assert(seq![d] + (t1 + s2) =~= (seq![d] + t1) + s2);
                    },
                    _ => {},
                }
            },
            _ => {},
        }
    }
}

/// A single cleanly parsed record's own bytes parse to exactly that
/// record.
proof fn lemma_parse_single_record(b: Seq<u8>)
    requires
        spec_parse_record(b) matches Some(p) && p is Ok,
    ensures
        spec_parse_record(b) matches Some(Ok(p)) ==> spec_parse_all(b.take(p.1))
            == Ok::<Seq<DescView>, ParseError>(seq![p.0]),
{
    let (d, n) = spec_parse_record(b)->Some_0->Ok_0;
    lemma_parse_record_agree(b, b.take(n));
    assert(b.take(n).skip(n) =~= Seq::<u8>::empty());
    assert(spec_parse_all(b.take(n).skip(n)) == Ok::<Seq<DescView>, ParseError>(Seq::empty()));
    assert(seq![d] + Seq::<DescView>::empty() =~= seq![d]);
}


/// The interface/records pairs a group list presents.
pub open spec fn gviews(gs: Seq<InterfaceGroup>) -> Seq<(DescriptorInterface, Seq<DescView>)> {
    Seq::new(gs.len(), |k: int| (gs[k].desc, recs_view(gs[k].records@)))
}

/// Copy `buf[a..b]` out into an owned vector.
fn copy_range(buf: &[u8], a: usize, b: usize) -> (v: Vec<u8>)
    requires
        a <= b <= buf@.len(),
    ensures
        v@ == buf@.subrange(a as int, b as int),
{
    let mut v: Vec<u8> = Vec::new();
    let mut k: usize = a;
    while k < b
        invariant
            a <= k <= b <= buf@.len(),
            v@.len() == k - a,
            forall|i: int| 0 <= i < v@.len() ==> v@[i] == buf@[a + i],
        decreases b - k,
    {
        v.push(buf[k]);
        k = k + 1;
    }
    proof {
        assert(v@ =~= buf@.subrange(a as int, b as int));
    }
    v
}

/// Split a configuration blob's record list (the bytes after the 9-byte
/// configuration header) into its interface groups: each interface
/// record with the records that follow it up to the next interface
/// record, both parsed and as raw bytes. Records before the first
/// interface record are dropped; the first parse error is reported.
pub fn split_interfaces(buf: &[u8]) -> (r: Result<Vec<InterfaceGroup>, ParseError>)
    ensures
        match r {
            Ok(groups) => spec_parse_all(buf@) matches Ok(s) && {
                let gs = spec_group(s);
                &&& gviews(groups@) == gs
                &&& groups@.len() == gs.len()
                &&& forall|k: int|
                    0 <= k < groups@.len() ==> spec_parse_all(#[trigger] groups@[k].raw@)
                        == Ok::<Seq<DescView>, ParseError>(recs_view(groups@[k].records@))
            },
            Err(e) => spec_parse_all(buf@) == Err::<Seq<DescView>, ParseError>(e),
        },
{
    let mut groups: Vec<InterfaceGroup> = Vec::new();
    let mut have_cur: bool = false;
    let mut cur_desc = DescriptorInterface {
        length: 0,
        interface_num: 0,
        alternate_setting: 0,
        num_endpoints: 0,
        interface_class: 0,
        interface_sub_class: 0,
        interface_protocol: 0,
        interface_str: 0,
    };
    let mut cur_records: Vec<DescriptorAny> = Vec::new();
    let mut cur_raw: Vec<u8> = Vec::new();
    let mut pos: usize = 0;
    // an exec read of the length brings its usize bound into scope
    let _blob_len = buf.len();
    proof {
        assert(buf@.skip(0) =~= buf@);
        assert(cur_raw@ =~= Seq::<u8>::empty());
        assert(recs_view(cur_records@) =~= Seq::<DescView>::empty());
        assert(gviews(groups@) =~= Seq::<(DescriptorInterface, Seq<DescView>)>::empty());
        match spec_parse_all(buf@) {
            Ok(tail) => {
                assert(gviews(groups@) + spec_group_acc(tail, None) =~= spec_group_acc(
                    tail,
                    None,
                ));
            },
            Err(_) => {},
        }
    }
    loop
        invariant
            buf@.len() <= usize::MAX,
            pos <= buf@.len(),
            ({
                let cv = if have_cur {
                    Some((cur_desc, recs_view(cur_records@)))
                } else {
                    None
                };
                match spec_parse_all(buf@.skip(pos as int)) {
                    Ok(tail) => spec_parse_all(buf@) matches Ok(s) && spec_group(s) == gviews(
                        groups@,
                    ) + spec_group_acc(tail, cv),
                    Err(e) => spec_parse_all(buf@) == Err::<Seq<DescView>, ParseError>(e),
                }
            }),
            forall|k: int|
                0 <= k < groups@.len() ==> spec_parse_all(#[trigger] groups@[k].raw@)
                    == Ok::<Seq<DescView>, ParseError>(recs_view(groups@[k].records@)),
            have_cur ==> spec_parse_all(cur_raw@) == Ok::<Seq<DescView>, ParseError>(
                recs_view(cur_records@),
            ),
            !have_cur ==> cur_records@.len() == 0 && cur_raw@.len() == 0,
        decreases buf@.len() - pos,
    {
        let ghost rest = buf@.skip(pos as int);
        match parse_record(buf, pos) {
            None => {
                if have_cur {
                    let ghost groups0 = groups@;
                    groups.push(InterfaceGroup { desc: cur_desc, records: cur_records, raw: cur_raw });
                    proof {
                        assert(gviews(groups@) =~= gviews(groups0).push(
                            (cur_desc, recs_view(cur_records@)),
                        ));
                        assert(gviews(groups0) + spec_group_acc(
                            Seq::<DescView>::empty(),
                            Some((cur_desc, recs_view(cur_records@))),
                        ) =~= gviews(groups@));
                    }
                    return Ok(groups);
                } else {
                    proof {
                        assert(gviews(groups@) + spec_group_acc(
                            Seq::<DescView>::empty(),
                            None,
                        ) =~= gviews(groups@));
                    }
                    return Ok(groups);
                }
            },
            Some(Err(e)) => {
                return Err(e);
            },
            Some(Ok((d, n))) => {
                let ghost tail = spec_parse_all(rest)->Ok_0;
                let ghost tail2 = spec_parse_all(buf@.skip(pos + n))->Ok_0;
                proof {
                    assert(rest.skip(n as int) =~= buf@.skip(pos + n));
                    if spec_parse_all(buf@.skip(pos + n)) is Ok {
                        assert(tail == seq![d@] + tail2);
                        assert(tail[0] == d@);
                        assert(tail.skip(1) =~= tail2);
                    }
                }
                let rec_bytes = copy_range(buf, pos, pos + n);
                proof {
                    assert(rec_bytes@ =~= rest.take(n as int));
                    lemma_parse_single_record(rest);
                }
                match d {
                    DescriptorAny::Interface(v) => {
                        if have_cur {
                            let ghost groups0 = groups@;
                            groups.push(
                                InterfaceGroup { desc: cur_desc, records: cur_records, raw: cur_raw },
                            );
                            proof {
                                assert(gviews(groups@) =~= gviews(groups0).push(
                                    (cur_desc, recs_view(cur_records@)),
                                ));
                            }
                        }
                        cur_desc = v;
                        have_cur = true;
                        cur_records = Vec::new();
                        cur_raw = Vec::new();
                        proof {
                            assert(recs_view(cur_records@) =~= Seq::<DescView>::empty());
                            assert(spec_parse_all(cur_raw@) == Ok::<Seq<DescView>, ParseError>(
                                recs_view(cur_records@),
                            ));
                            if spec_parse_all(buf@.skip(pos + n)) is Ok {
                                assert(gviews(groups@) + spec_group_acc(
                                    tail2,
                                    Some((v, Seq::<DescView>::empty())),
                                ) =~= spec_group(spec_parse_all(buf@)->Ok_0));
                            }
                        }
                    },
                    other => {
                        if have_cur {
                            let ghost recs0 = cur_records@;
                            let ghost raw0 = cur_raw@;
                            let mut rb = rec_bytes;
                            cur_records.push(other);
                            cur_raw.append(&mut rb);
                            proof {
                                assert(cur_raw@ =~= raw0 + rest.take(n as int));
                                lemma_parse_all_append(raw0, rest.take(n as int));
                                assert(recs_view(cur_records@) =~= recs_view(recs0).push(
                                    cur_records@[recs0.len() as int]@,
                                ));
                                assert(recs_view(recs0) + seq![d@] =~= recs_view(cur_records@));
                            }
                        } else {
                            let _ = other;
                            let _ = rec_bytes;
                        }
                    },
                }
                pos = pos + n;
            },
        }
    }
}


/// The facts an endpoint descriptor encodes, as a value.
pub open spec fn spec_decode_endpoint(d: DescriptorEndpoint) -> EndpointInfo {
    EndpointInfo {
        num: d.address & 0xF,
        dir_in: d.address & 0x80 != 0,
        ty: spec_endpoint_type(d.attributes & 0x3),
        max_packet_size: (d.max_packet_size.0 as u16) | (((d.max_packet_size.1 as u16) & 0x03)
            << 8),
        poll_period: d.max_polling_interval,
    }
}

/// The typed endpoint handle an endpoint of device `addr` gets, or
/// `None` for the kinds the stack does not drive (isochronous and
/// interrupt-OUT).
pub open spec fn spec_endpoint_handle(addr: u8, info: EndpointInfo) -> Option<Endpoint> {
    match info.ty {
        EndpointType::Control => Some(
            Endpoint::Control(
                ControlEndpoint {
                    addr: crate::host::EndpointAddr { dev: addr, ep: info.num },
                    max_packet_size: info.max_packet_size as usize,
                },
            ),
        ),
        EndpointType::Isoch => None,
        EndpointType::Bulk => Some(
            Endpoint::Bulk(
                BulkEndpoint {
                    addr: crate::host::EndpointAddr { dev: addr, ep: info.num },
                    dir_is_in: info.dir_in,
                    max_packet_size: info.max_packet_size as usize,
                },
            ),
        ),
        EndpointType::Interrupt => if info.dir_in {
            Some(
                Endpoint::Interrupt(
                    InterruptEndpoint {
                        addr: crate::host::EndpointAddr { dev: addr, ep: info.num },
                        max_packet_size: info.max_packet_size as usize,
                        polling_interval: info.poll_period as usize,
                    },
                ),
            )
        } else {
            None
        },
    }
}

/// The endpoint handles of device `addr` built from a record list, in
/// order; an unsupported endpoint kind fails the whole interface.
pub open spec fn spec_build_endpoints(records: Seq<DescView>, addr: u8) -> Result<
    Seq<Endpoint>,
    EnumerationError,
>
    decreases records.len(),
{
    if records.len() == 0 {
        Ok(Seq::empty())
    } else {
        match records[0] {
            DescView::Endpoint(ed) => match spec_endpoint_handle(addr, spec_decode_endpoint(ed)) {
                Some(h) => match spec_build_endpoints(records.skip(1), addr) {
                    Ok(t) => Ok(seq![h] + t),
                    Err(e) => Err(e),
                },
                None => Err(EnumerationError::UnsupportedEndpoint),
            },
            _ => spec_build_endpoints(records.skip(1), addr),
        }
    }
}

/// Build the endpoint handles of device `addr` from an interface
/// group's records.
pub fn build_endpoints(records: &Vec<DescriptorAny>, addr: u8) -> (r: Result<
    Vec<Endpoint>,
    EnumerationError,
>)
    ensures
        match r {
            Ok(eps) => spec_build_endpoints(recs_view(records@), addr)
                == Ok::<Seq<Endpoint>, EnumerationError>(eps@),
            Err(e) => spec_build_endpoints(recs_view(records@), addr)
                == Err::<Seq<Endpoint>, EnumerationError>(e),
        },
{
    let ghost all = recs_view(records@);
    let mut out: Vec<Endpoint> = Vec::new();
    let mut i: usize = 0;
    let n = records.len();
    proof {
        assert(all.skip(0) =~= all);
        match spec_build_endpoints(all, addr) {
            Ok(t) => {
                assert(out@ + t =~= t);
            },
            Err(_) => {},
        }
    }
    while i < n
        invariant
            n == records@.len(),
            all == recs_view(records@),
            i <= n,
            ({
                match spec_build_endpoints(all.skip(i as int), addr) {
                    Ok(t) => spec_build_endpoints(all, addr) == Ok::<
                        Seq<Endpoint>,
                        EnumerationError,
                    >(out@ + t),
                    Err(e) => spec_build_endpoints(all, addr) == Err::<
                        Seq<Endpoint>,
                        EnumerationError,
                    >(e),
                }
            }),
        decreases n - i,
    {
        let ghost rest = all.skip(i as int);
        proof {
            assert(rest[0] == records@[i as int]@);
            assert(rest.skip(1) =~= all.skip(i + 1));
        }
        match &records[i] {
            DescriptorAny::Endpoint(ed) => {
                let info = decode_endpoint(ed);
                match info.ty {
                    EndpointType::Control => {
                        let ghost out0 = out@;
                        out.push(
                            Endpoint::Control(
                                ControlEndpoint::new(addr, info.num, info.max_packet_size as usize),
                            ),
                        );
                        proof {
                            if spec_build_endpoints(all.skip(i + 1), addr) is Ok {
                                let t2 = spec_build_endpoints(all.skip(i + 1), addr)->Ok_0;
                                assert(out0 + (seq![out@[out0.len() as int]] + t2) =~= out@ + t2);
                            }
                        }
                    },
                    EndpointType::Bulk => {
                        let ghost out0 = out@;
                        out.push(
                            Endpoint::Bulk(
                                BulkEndpoint::new(
                                    addr,
                                    info.num,
                                    info.dir_in,
                                    info.max_packet_size as usize,
                                ),
                            ),
                        );
                        proof {
                            if spec_build_endpoints(all.skip(i + 1), addr) is Ok {
                                let t2 = spec_build_endpoints(all.skip(i + 1), addr)->Ok_0;
                                assert(out0 + (seq![out@[out0.len() as int]] + t2) =~= out@ + t2);
                            }
                        }
                    },
                    EndpointType::Interrupt => {
                        if info.dir_in {
                            let ghost out0 = out@;
                            out.push(
                                Endpoint::Interrupt(
                                    InterruptEndpoint::new(
                                        addr,
                                        info.num,
                                        info.max_packet_size as usize,
                                        info.poll_period as usize,
                                    ),
                                ),
                            );
                            proof {
                                if spec_build_endpoints(all.skip(i + 1), addr) is Ok {
                                    let t2 = spec_build_endpoints(all.skip(i + 1), addr)->Ok_0;
                                    assert(out0 + (seq![out@[out0.len() as int]] + t2) =~= out@
                                        + t2);
                                }
                            }
                        } else {
                            return Err(EnumerationError::UnsupportedEndpoint);
                        }
                    },
                    EndpointType::Isoch => {
                        return Err(EnumerationError::UnsupportedEndpoint);
                    },
                }
            },
            _ => {},
        }
        i = i + 1;
    }
    proof {
        assert(all.skip(n as int) =~= Seq::<DescView>::empty());
        assert(out@ + Seq::<Endpoint>::empty() =~= out@);
    }
    Ok(out)
}

/// An active device interface: bound to a driver, or retained with its
/// endpoints and raw descriptor bytes until a driver appears.
#[derive(Clone, Debug, PartialEq, Eq)]
pub enum Interface {
    /// No fitting driver (yet): the endpoint handles and the interface's
    /// raw descriptor bytes are kept.
    Unknown(Vec<Endpoint>, Vec<u8>),
    /// A driver (named by its registry key) was started on the
    /// interface's endpoints.
    Bound { driver: u32, endpoints: Vec<Endpoint> },
}

/// What `spawn_interface` promises of a produced interface value, given
/// the driver-lookup answer, the built endpoint handles and the group's
/// raw bytes.
pub open spec fn interface_matches(
    i: Interface,
    driver: Option<u32>,
    eps: Seq<Endpoint>,
    raw: Seq<u8>,
) -> bool {
    match i {
        Interface::Bound { driver: d2, endpoints } => driver == Some(d2) && endpoints@ == eps,
        Interface::Unknown(endpoints, kept) => driver is None && endpoints@ == eps && kept@ == raw,
    }
}

/// Construct the interface for one group: decode and wrap its
/// endpoints, then bind the driver the lookup found, or retain the
/// endpoints with the raw descriptor bytes. An endpoint kind the stack
/// does not drive fails the interface.
pub fn spawn_interface(addr: u8, group: &InterfaceGroup, driver: Option<u32>) -> (r: Result<
    Interface,
    EnumerationError,
>)
    ensures
        match r {
            Ok(i) => spec_build_endpoints(recs_view(group.records@), addr) matches Ok(eps)
                && interface_matches(i, driver, eps, group.raw@),
            Err(e) => spec_build_endpoints(recs_view(group.records@), addr) == Err::<
                Seq<Endpoint>,
                EnumerationError,
            >(e),
        },
{
    let endpoints = match build_endpoints(&group.records, addr) {
        Ok(eps) => eps,
        Err(e) => {
            return Err(e);
        },
    };
    match driver {
        Some(d) => Ok(Interface::Bound { driver: d, endpoints }),
        None => {
            let raw = copy_range(group.raw.as_slice(), 0, group.raw.len());
            proof {
                assert(raw@ =~= group.raw@);
            }
            Ok(Interface::Unknown(endpoints, raw))
        },
    }
}

/// Decode UTF-16LE code units into Unicode scalar values: `None` on an
/// unpaired or reversed surrogate.
pub open spec fn spec_decode_utf16(units: Seq<u16>) -> Option<Seq<u32>>
    decreases units.len(),
{
    if units.len() == 0 {
        Some(Seq::empty())
    } else {
        let u = units[0];
        if u < 0xD800 || u >= 0xE000 {
            match spec_decode_utf16(units.skip(1)) {
                Some(t) => Some(seq![u as u32] + t),
                None => None,
            }
        } else if u < 0xDC00 && units.len() >= 2 && 0xDC00 <= units[1] < 0xE000 {
            match spec_decode_utf16(units.skip(2)) {
                Some(t) => Some(
                    seq![(0x10000 + (u - 0xD800) * 0x400 + (units[1] - 0xDC00)) as u32] + t,
                ),
                None => None,
            }
        } else {
            None
        }
    }
}

/// Decode a string descriptor's UTF-16LE code units into Unicode scalar
/// values; `None` when the units are not valid UTF-16.
pub fn decode_utf16(units: &[u16]) -> (r: Option<Vec<u32>>)
    ensures
        match r {
            Some(v) => spec_decode_utf16(units@) == Some(v@),
            None => spec_decode_utf16(units@) is None,
        },
{
    let mut out: Vec<u32> = Vec::new();
    let mut i: usize = 0;
    let n = units.len();
    proof {
        assert(units@.skip(0) =~= units@);
        match spec_decode_utf16(units@) {
            Some(t) => {
                assert(out@ + t =~= t);
            },
            None => {},
        }
    }
    while i < n
        invariant
            n == units@.len(),
            i <= n,
            ({
                match spec_decode_utf16(units@.skip(i as int)) {
                    Some(t) => spec_decode_utf16(units@) == Some(out@ + t),
                    None => spec_decode_utf16(units@) is None,
                }
            }),
        decreases n - i,
    {
        let ghost rest = units@.skip(i as int);
        let u = units[i];
        proof {
            assert(rest[0] == units@[i as int]);
        }
        if u < 0xD800 || u >= 0xE000 {
            let ghost out0 = out@;
            out.push(u as u32);
            proof {
                assert(rest.skip(1) =~= units@.skip(i + 1));
                match spec_decode_utf16(units@.skip(i + 1)) {
                    Some(t) => {
                        assert(out0 + (seq![u as u32] + t) =~= out@ + t);
                    },
                    None => {},
                }
            }
            i = i + 1;
        } else if u < 0xDC00 && i + 1 < n && 0xDC00 <= units[i + 1] && units[i + 1] < 0xE000 {
            let u2 = units[i + 1];
            let ghost out0 = out@;
            proof {
                assert(rest.len() >= 2 && rest[1] == units@[i + 1]);
            }
            out.push(0x10000 + (u as u32 - 0xD800) * 0x400 + (u2 as u32 - 0xDC00));
            proof {
                assert(rest.skip(2) =~= units@.skip(i + 2));
                match spec_decode_utf16(units@.skip(i + 2)) {
                    Some(t) => {
                        assert((0x10000 + (u - 0xD800) * 0x400 + (u2 - 0xDC00)) as u32 == 0x10000
                            + (u as u32 - 0xD800) * 0x400 + (u2 as u32 - 0xDC00));
                        assert(out0 + (seq![((0x10000 + (u - 0xD800) * 0x400 + (u2 - 0xDC00)) as u32)]
                            + t) =~= out@ + t);
                    },
                    None => {},
                }
            }
            i = i + 2;
        } else {
            proof {
                if u < 0xDC00 && rest.len() >= 2 && 0xDC00 <= rest[1] < 0xE000 {
                    assert(rest[1] == units@[i + 1]);
                }
            }
            return None;
        }
    }
    proof {
        assert(units@.skip(n as int) =~= Seq::<u16>::empty());
        assert(out@ + Seq::<u32>::empty() =~= out@);
    }
    Some(out)
}


/// Whether `bytes` are a string descriptor holding valid UTF-16.
pub open spec fn spec_string_ok(bytes: Seq<u8>) -> bool {
    match spec_parse_record(bytes) {
        Some(Ok((DescView::String(v), n))) => spec_decode_utf16(v.utf16) is Some,
        _ => false,
    }
}

/// Check that `bytes` are a string descriptor holding valid UTF-16.
pub fn check_string(bytes: &[u8]) -> (r: bool)
    ensures
        r == spec_string_ok(bytes@),
{
    proof {
        assert(bytes@.skip(0) =~= bytes@);
    }
    match parse_record(bytes, 0) {
        Some(Ok((d, _n))) => match d {
            DescriptorAny::String(v) => decode_utf16(v.utf16.as_slice()).is_some(),
            _ => false,
        },
        _ => false,
    }
}

/// Where the device worker protocol stands. The states follow the
/// enumeration sequence: take the address-zero guard, power and reset
/// the port, enable it, assign the address, then read descriptors and
/// strings on the new address, and finally bind a driver per interface.
#[derive(Clone, Copy, Debug, PartialEq, Eq, Structural)]
pub enum DevState {
    Start,
    WaitAddr0,
    CheckPower,
    PowerOn,
    ResetOn,
    ResetHold,
    ResetOff,
    ResetSettle,
    Enabling,
    AddressingDevice,
    ReleasingAddr0,
    ReadingDeviceDescr,
    ReadingMfgStr { dd: DescriptorDevice },
    ReadingProdStr { dd: DescriptorDevice },
    ReadingSerialStr { dd: DescriptorDevice },
    ReadingConfigDescr { dd: DescriptorDevice, idx: u8 },
    ReadingConfigStr { dd: DescriptorDevice, idx: u8, cfg: DescriptorConfiguration },
    ReadingBaseConfig { dd: DescriptorDevice },
    ReadingFullConfig { base: DescriptorConfiguration },
    BindingIfaceStr { k: usize },
    BindingIfaceDriver { k: usize },
    Running,
    Failed { err: EnumerationError },
}

/// What the embedder reports back to the worker: the answer to the
/// worker's previous action.
#[derive(Clone, Debug, PartialEq, Eq)]
pub enum DevEvent {
    Started,
    Addr0Granted,
    Feature(bool),
    Ack,
    SleepDone,
    Data(Vec<u8>),
    /// The controller reported an error condition code for the transfer.
    TransferError,
    Sent,
    Driver(Option<u32>),
}

/// What the worker asks the embedder to do next. Control transfers go
/// through endpoint zero: at address 0 while the guard is held, at the
/// device's address afterwards.
#[derive(Clone, Copy, Debug, PartialEq, Eq, Structural)]
pub enum DevAction {
    AcquireAddr0,
    GetPortFeature(PortFeature),
    SetPortFeature(PortFeature),
    ClearPortFeature(PortFeature),
    Sleep(usize),
    ControlIn { request: DeviceRequest },
    ControlOut { request: DeviceRequest },
    ReleaseAddr0,
    /// Nothing to do on the wire (a string read of index 0).
    Nop,
    LookupDriver(u32),
    Fail(EnumerationError),
    Done,
}

/// The action that reads string descriptor `idx`: nothing for index 0
/// (the empty string), a 255-byte GET_DESCRIPTOR read otherwise.
pub open spec fn spec_string_action(idx: u8) -> DevAction {
    if idx == 0 {
        DevAction::Nop
    } else {
        DevAction::ControlIn { request: spec_get_descriptor_request(3, idx, 255) }
    }
}

/// The event shape that answers a string read of `idx`.
pub open spec fn spec_string_event_ok(idx: u8, ev: DevEvent) -> bool {
    if idx == 0 {
        ev == DevEvent::Ack
    } else {
        ev matches DevEvent::Data(_) || ev == DevEvent::TransferError
    }
}

/// Whether the answer to a string read of `idx` decoded cleanly.
pub open spec fn spec_string_result_ok(idx: u8, ev: DevEvent) -> bool {
    if idx == 0 {
        true
    } else {
        match ev {
            DevEvent::Data(b) => spec_string_ok(b@),
            _ => false,
        }
    }
}

fn string_action(idx: u8) -> (a: DevAction)
    ensures
        a == spec_string_action(idx),
{
    if idx == 0 {
        DevAction::Nop
    } else {
        DevAction::ControlIn { request: get_descriptor_request(3, idx, 255) }
    }
}

fn string_step_ok(idx: u8, ev: &DevEvent) -> (r: bool)
    ensures
        r == spec_string_result_ok(idx, *ev),
{
    if idx == 0 {
        true
    } else {
        match ev {
            DevEvent::Data(b) => check_string(b.as_slice()),
            _ => false,
        }
    }
}

/// The worker of one newly connected device: which port it serves,
/// which address it was assigned, where the protocol stands, and the
/// interfaces found so far.
pub struct PortDev {
    pub port_idx: u8,
    pub addr: u8,
    pub state: DevState,
    pub groups: Vec<InterfaceGroup>,
    pub interfaces: Vec<Interface>,
}

/// Which event shape the worker expects in its current state.
pub open spec fn expects(pre: PortDev, ev: DevEvent) -> bool {
    match pre.state {
        DevState::Start => ev == DevEvent::Started,
        DevState::WaitAddr0 => ev == DevEvent::Addr0Granted,
        DevState::CheckPower => ev matches DevEvent::Feature(_),
        DevState::PowerOn => ev == DevEvent::Ack,
        DevState::ResetOn => ev == DevEvent::Ack,
        DevState::ResetHold => ev == DevEvent::SleepDone,
        DevState::ResetOff => ev == DevEvent::Ack,
        DevState::ResetSettle => ev == DevEvent::SleepDone,
        DevState::Enabling => ev == DevEvent::Ack,
        DevState::AddressingDevice => ev == DevEvent::Sent,
        DevState::ReleasingAddr0 => ev == DevEvent::Ack,
        DevState::ReadingDeviceDescr => ev matches DevEvent::Data(_) || ev == DevEvent::TransferError,
        DevState::ReadingMfgStr { dd } => spec_string_event_ok(dd.manufacturer_str, ev),
        DevState::ReadingProdStr { dd } => spec_string_event_ok(dd.product_str, ev),
        DevState::ReadingSerialStr { dd } => spec_string_event_ok(dd.serial_number_str, ev),
        DevState::ReadingConfigDescr { .. } => ev matches DevEvent::Data(_) || ev == DevEvent::TransferError,
        DevState::ReadingConfigStr { cfg, .. } => spec_string_event_ok(cfg.configuration_str, ev),
        DevState::ReadingBaseConfig { .. } => ev matches DevEvent::Data(_) || ev == DevEvent::TransferError,
        DevState::ReadingFullConfig { .. } => ev matches DevEvent::Data(_) || ev == DevEvent::TransferError,
        DevState::BindingIfaceStr { k } => spec_string_event_ok(
            pre.groups@[k as int].desc.interface_str,
            ev,
        ),
        DevState::BindingIfaceDriver { .. } => ev matches DevEvent::Driver(_),
        DevState::Running => false,
        DevState::Failed { .. } => false,
    }
}

impl PortDev {
    /// Machine invariant: interface-binding states index a real group.
    pub open spec fn wf(self) -> bool {
        match self.state {
            DevState::BindingIfaceStr { k } => k < self.groups@.len(),
            DevState::BindingIfaceDriver { k } => k < self.groups@.len(),
            _ => true,
        }
    }

    /// A worker for the device on `port_idx` that was assigned `addr`,
    /// ready to start.
    pub fn new(port_idx: u8, addr: u8) -> (r: PortDev)
        ensures
            r.wf(),
            r.port_idx == port_idx,
            r.addr == addr,
            r.state == DevState::Start,
            r.groups@.len() == 0,
            r.interfaces@.len() == 0,
    {
        PortDev {
            port_idx,
            addr,
            state: DevState::Start,
            groups: Vec::new(),
            interfaces: Vec::new(),
        }
    }
}

/// Identity and collected results are untouched and the worker moved to
/// `st`.
pub open spec fn goto(pre: PortDev, post: PortDev, st: DevState) -> bool {
    &&& post.port_idx == pre.port_idx
    &&& post.addr == pre.addr
    &&& post.groups@ == pre.groups@
    &&& post.interfaces@ == pre.interfaces@
    &&& post.state == st
}

/// The worker failed with `e` and asks the embedder to stop it.
pub open spec fn fails(pre: PortDev, post: PortDev, action: DevAction, e: EnumerationError) -> bool {
    goto(pre, post, DevState::Failed { err: e }) && action == DevAction::Fail(e)
}

/// The transition relation of the device worker: for each state and the
/// event answering it, the successor state and the action handed back.
pub open spec fn step_rel(pre: PortDev, ev: DevEvent, post: PortDev, action: DevAction) -> bool {
    match pre.state {
        DevState::Start => goto(pre, post, DevState::WaitAddr0) && action == DevAction::AcquireAddr0,
        DevState::WaitAddr0 => goto(pre, post, DevState::CheckPower) && action
            == DevAction::GetPortFeature(PortFeature::Power),
        DevState::CheckPower => match ev {
            DevEvent::Feature(powered) => if powered {
                goto(pre, post, DevState::ResetOn) && action == DevAction::SetPortFeature(
                    PortFeature::Reset,
                )
            } else {
                goto(pre, post, DevState::PowerOn) && action == DevAction::SetPortFeature(
                    PortFeature::Power,
                )
            },
            _ => false,
        },
        DevState::PowerOn => goto(pre, post, DevState::ResetOn) && action
            == DevAction::SetPortFeature(PortFeature::Reset),
        DevState::ResetOn => goto(pre, post, DevState::ResetHold) && action == DevAction::Sleep(50),
        DevState::ResetHold => goto(pre, post, DevState::ResetOff) && action
            == DevAction::ClearPortFeature(PortFeature::Reset),
        DevState::ResetOff => goto(pre, post, DevState::ResetSettle) && action == DevAction::Sleep(
            2,
        ),
        DevState::ResetSettle => goto(pre, post, DevState::Enabling) && action
            == DevAction::SetPortFeature(PortFeature::Enable),
        DevState::Enabling => goto(pre, post, DevState::AddressingDevice) && action
            == (DevAction::ControlOut { request: spec_set_address_request(pre.addr) }),
        DevState::AddressingDevice => goto(pre, post, DevState::ReleasingAddr0) && action
            == DevAction::ReleaseAddr0,
        DevState::ReleasingAddr0 => goto(pre, post, DevState::ReadingDeviceDescr) && action
            == (DevAction::ControlIn { request: spec_get_descriptor_request(1, 0, 18) }),
        DevState::ReadingDeviceDescr => match ev {
            DevEvent::TransferError => fails(pre, post, action, EnumerationError::TransferFailed),
            DevEvent::Data(b) => match spec_parse_record(b@) {
                Some(Ok((DescView::Device(dd), n))) => goto(
                    pre,
                    post,
                    DevState::ReadingMfgStr { dd },
                ) && action == spec_string_action(dd.manufacturer_str),
                _ => fails(pre, post, action, EnumerationError::Parse),
            },
            _ => false,
        },
        DevState::ReadingMfgStr { dd } => if ev == DevEvent::TransferError {
            fails(pre, post, action, EnumerationError::TransferFailed)
        } else if spec_string_result_ok(dd.manufacturer_str, ev) {
            goto(pre, post, DevState::ReadingProdStr { dd }) && action == spec_string_action(
                dd.product_str,
            )
        } else {
            fails(pre, post, action, EnumerationError::StringDecode)
        },
        DevState::ReadingProdStr { dd } => if ev == DevEvent::TransferError {
            fails(pre, post, action, EnumerationError::TransferFailed)
        } else if spec_string_result_ok(dd.product_str, ev) {
            goto(pre, post, DevState::ReadingSerialStr { dd }) && action == spec_string_action(
                dd.serial_number_str,
            )
        } else {
            fails(pre, post, action, EnumerationError::StringDecode)
        },
        DevState::ReadingSerialStr { dd } => if ev == DevEvent::TransferError {
            fails(pre, post, action, EnumerationError::TransferFailed)
        } else if spec_string_result_ok(dd.serial_number_str, ev) {
            if dd.num_configurations > 0 {
                goto(pre, post, DevState::ReadingConfigDescr { dd, idx: 0 }) && action
                    == (DevAction::ControlIn { request: spec_get_descriptor_request(2, 0, 9) })
            } else {
                goto(pre, post, DevState::ReadingBaseConfig { dd }) && action
                    == (DevAction::ControlIn { request: spec_get_descriptor_request(2, 0, 9) })
            }
        } else {
            fails(pre, post, action, EnumerationError::StringDecode)
        },
        DevState::ReadingConfigDescr { dd, idx } => match ev {
            DevEvent::TransferError => fails(pre, post, action, EnumerationError::TransferFailed),
            DevEvent::Data(b) => match spec_parse_record(b@) {
                Some(Ok((DescView::Configuration(cfg), n))) => goto(
                    pre,
                    post,
                    DevState::ReadingConfigStr { dd, idx, cfg },
                ) && action == spec_string_action(cfg.configuration_str),
                _ => fails(pre, post, action, EnumerationError::Parse),
            },
            _ => false,
        },
        DevState::ReadingConfigStr { dd, idx, cfg } => if ev == DevEvent::TransferError {
            fails(pre, post, action, EnumerationError::TransferFailed)
        } else if spec_string_result_ok(
            cfg.configuration_str,
            ev,
        ) {
            if idx + 1 < dd.num_configurations {
                goto(pre, post, DevState::ReadingConfigDescr { dd, idx: (idx + 1) as u8 })
                    && action == (DevAction::ControlIn {
                    request: spec_get_descriptor_request(2, (idx + 1) as u8, 9),
                })
            } else {
                goto(pre, post, DevState::ReadingBaseConfig { dd }) && action
                    == (DevAction::ControlIn { request: spec_get_descriptor_request(2, 0, 9) })
            }
        } else {
            fails(pre, post, action, EnumerationError::StringDecode)
        },
        DevState::ReadingBaseConfig { dd } => match ev {
            DevEvent::TransferError => fails(pre, post, action, EnumerationError::TransferFailed),
            DevEvent::Data(b) => match spec_parse_record(b@) {
                Some(Ok((DescView::Configuration(cfg), n))) => goto(
                    pre,
                    post,
                    DevState::ReadingFullConfig { base: cfg },
                ) && action == (DevAction::ControlIn {
                    request: spec_get_descriptor_request(2, 0, cfg.total_length),
                }),
                _ => fails(pre, post, action, EnumerationError::Parse),
            },
            _ => false,
        },
        DevState::ReadingFullConfig { base } => match ev {
            DevEvent::TransferError => fails(pre, post, action, EnumerationError::TransferFailed),
            DevEvent::Data(b) => if b@.len() < base.length {
                fails(pre, post, action, EnumerationError::Parse)
            } else {
                match spec_parse_all(b@.skip(base.length as int)) {
                    Ok(s) => {
                        &&& post.port_idx == pre.port_idx
                        &&& post.addr == pre.addr
                        &&& post.interfaces@ == pre.interfaces@
                        &&& gviews(post.groups@) == spec_group(s)
                        &&& forall|k: int|
                            0 <= k < post.groups@.len() ==> spec_parse_all(
                                #[trigger] post.groups@[k].raw@,
                            ) == Ok::<Seq<DescView>, ParseError>(recs_view(post.groups@[k].records@))
                        &&& if spec_group(s).len() == 0 {
                            post.state == DevState::Running && action == DevAction::Done
                        } else {
                            post.state == (DevState::BindingIfaceStr { k: 0 }) && action
                                == spec_string_action(spec_group(s)[0].0.interface_str)
                        }
                    },
                    Err(_) => fails(pre, post, action, EnumerationError::Parse),
                }
            },
            _ => false,
        },
        DevState::BindingIfaceStr { k } => if ev == DevEvent::TransferError {
            fails(pre, post, action, EnumerationError::TransferFailed)
        } else if spec_string_result_ok(
            pre.groups@[k as int].desc.interface_str,
            ev,
        ) {
            goto(pre, post, DevState::BindingIfaceDriver { k }) && action
                == DevAction::LookupDriver(spec_full_class(pre.groups@[k as int].desc))
        } else {
            fails(pre, post, action, EnumerationError::StringDecode)
        },
        DevState::BindingIfaceDriver { k } => match ev {
            DevEvent::Driver(opt) => match spec_build_endpoints(
                recs_view(pre.groups@[k as int].records@),
                pre.addr,
            ) {
                Ok(eps) => {
                    &&& post.port_idx == pre.port_idx
                    &&& post.addr == pre.addr
                    &&& post.groups@ == pre.groups@
                    &&& post.interfaces@.len() == pre.interfaces@.len() + 1
                    &&& post.interfaces@.subrange(0, pre.interfaces@.len() as int)
                        == pre.interfaces@
                    &&& interface_matches(
                        post.interfaces@.last(),
                        opt,
                        eps,
                        pre.groups@[k as int].raw@,
                    )
                    &&& if k + 1 < pre.groups@.len() {
                        post.state == (DevState::BindingIfaceStr { k: (k + 1) as usize }) && action
                            == spec_string_action(pre.groups@[k + 1].desc.interface_str)
                    } else {
                        post.state == DevState::Running && action == DevAction::Done
                    }
                },
                Err(e) => fails(pre, post, action, e),
            },
            _ => false,
        },
        DevState::Running => false,
        DevState::Failed { .. } => false,
    }
}


impl PortDev {
    /// Drive the worker one step: consume the event answering the last
    /// action and hand back the next action, exactly as the transition
    /// relation prescribes.
    pub fn step(&mut self, ev: DevEvent) -> (action: DevAction)
        requires
            old(self).wf(),
            expects(*old(self), ev),
        ensures
            final(self).wf(),
            step_rel(*old(self), ev, *final(self), action),
    {
        let st = self.state;
        match st {
            DevState::Start => {
                self.state = DevState::WaitAddr0;
                DevAction::AcquireAddr0
            },
            DevState::WaitAddr0 => {
                self.state = DevState::CheckPower;
                DevAction::GetPortFeature(PortFeature::Power)
            },
            DevState::CheckPower => match ev {
                DevEvent::Feature(powered) => {
                    if powered {
                        self.state = DevState::ResetOn;
                        DevAction::SetPortFeature(PortFeature::Reset)
                    } else {
                        self.state = DevState::PowerOn;
                        DevAction::SetPortFeature(PortFeature::Power)
                    }
                },
                _ => {
                    proof {
                        assert(false);
                    }
                    DevAction::Done
                },
            },
            DevState::PowerOn => {
                self.state = DevState::ResetOn;
                DevAction::SetPortFeature(PortFeature::Reset)
            },
            DevState::ResetOn => {
                self.state = DevState::ResetHold;
                DevAction::Sleep(50)
            },
            DevState::ResetHold => {
                self.state = DevState::ResetOff;
                DevAction::ClearPortFeature(PortFeature::Reset)
            },
            DevState::ResetOff => {
                self.state = DevState::ResetSettle;
                DevAction::Sleep(2)
            },
            DevState::ResetSettle => {
                self.state = DevState::Enabling;
                DevAction::SetPortFeature(PortFeature::Enable)
            },
            DevState::Enabling => {
                self.state = DevState::AddressingDevice;
                DevAction::ControlOut { request: set_address_request(self.addr) }
            },
            DevState::AddressingDevice => {
                self.state = DevState::ReleasingAddr0;
                DevAction::ReleaseAddr0
            },
            DevState::ReleasingAddr0 => {
                self.state = DevState::ReadingDeviceDescr;
                DevAction::ControlIn { request: get_descriptor_request(1, 0, 18) }
            },
            DevState::ReadingDeviceDescr => match ev {
                DevEvent::TransferError => {
                    self.state = DevState::Failed { err: EnumerationError::TransferFailed };
                    DevAction::Fail(EnumerationError::TransferFailed)
                },
                DevEvent::Data(b) => {
                    proof {
                        assert(b@.skip(0) =~= b@);
                    }
                    match parse_record(b.as_slice(), 0) {
                        Some(Ok((DescriptorAny::Device(dd), _n))) => {
                            self.state = DevState::ReadingMfgStr { dd };
                            string_action(dd.manufacturer_str)
                        },
                        _ => {
                            self.state = DevState::Failed { err: EnumerationError::Parse };
                            DevAction::Fail(EnumerationError::Parse)
                        },
                    }
                },
                _ => {
                    proof {
                        assert(false);
                    }
                    DevAction::Done
                },
            },
            DevState::ReadingMfgStr { dd } => {
                if matches!(ev, DevEvent::TransferError) {
                    self.state = DevState::Failed { err: EnumerationError::TransferFailed };
                    DevAction::Fail(EnumerationError::TransferFailed)
                } else if string_step_ok(dd.manufacturer_str, &ev) {
                    self.state = DevState::ReadingProdStr { dd };
                    string_action(dd.product_str)
                } else {
                    self.state = DevState::Failed { err: EnumerationError::StringDecode };
                    DevAction::Fail(EnumerationError::StringDecode)
                }
            },
            DevState::ReadingProdStr { dd } => {
                if matches!(ev, DevEvent::TransferError) {
                    self.state = DevState::Failed { err: EnumerationError::TransferFailed };
                    DevAction::Fail(EnumerationError::TransferFailed)
                } else if string_step_ok(dd.product_str, &ev) {
                    self.state = DevState::ReadingSerialStr { dd };
                    string_action(dd.serial_number_str)
                } else {
                    self.state = DevState::Failed { err: EnumerationError::StringDecode };
                    DevAction::Fail(EnumerationError::StringDecode)
                }
            },
            DevState::ReadingSerialStr { dd } => {
                if matches!(ev, DevEvent::TransferError) {
                    self.state = DevState::Failed { err: EnumerationError::TransferFailed };
                    DevAction::Fail(EnumerationError::TransferFailed)
                } else if string_step_ok(dd.serial_number_str, &ev) {
                    if dd.num_configurations > 0 {
                        self.state = DevState::ReadingConfigDescr { dd, idx: 0 };
                    } else {
                        self.state = DevState::ReadingBaseConfig { dd };
                    }
                    DevAction::ControlIn { request: get_descriptor_request(2, 0, 9) }
                } else {
                    self.state = DevState::Failed { err: EnumerationError::StringDecode };
                    DevAction::Fail(EnumerationError::StringDecode)
                }
            },
            DevState::ReadingConfigDescr { dd, idx } => match ev {
                DevEvent::TransferError => {
                    self.state = DevState::Failed { err: EnumerationError::TransferFailed };
                    DevAction::Fail(EnumerationError::TransferFailed)
                },
                DevEvent::Data(b) => {
                    proof {
                        assert(b@.skip(0) =~= b@);
                    }
                    match parse_record(b.as_slice(), 0) {
                        Some(Ok((DescriptorAny::Configuration(cfg), _n))) => {
                            self.state = DevState::ReadingConfigStr { dd, idx, cfg };
                            string_action(cfg.configuration_str)
                        },
                        _ => {
                            self.state = DevState::Failed { err: EnumerationError::Parse };
                            DevAction::Fail(EnumerationError::Parse)
                        },
                    }
                },
                _ => {
                    proof {
                        assert(false);
                    }
                    DevAction::Done
                },
            },
            DevState::ReadingConfigStr { dd, idx, cfg } => {
                if matches!(ev, DevEvent::TransferError) {
                    self.state = DevState::Failed { err: EnumerationError::TransferFailed };
                    DevAction::Fail(EnumerationError::TransferFailed)
                } else if string_step_ok(cfg.configuration_str, &ev) {
                    if idx < 255 && idx + 1 < dd.num_configurations {
                        self.state = DevState::ReadingConfigDescr { dd, idx: idx + 1 };
                        DevAction::ControlIn { request: get_descriptor_request(2, idx + 1, 9) }
                    } else {
                        self.state = DevState::ReadingBaseConfig { dd };
                        DevAction::ControlIn { request: get_descriptor_request(2, 0, 9) }
                    }
                } else {
                    self.state = DevState::Failed { err: EnumerationError::StringDecode };
                    DevAction::Fail(EnumerationError::StringDecode)
                }
            },
            DevState::ReadingBaseConfig { dd } => match ev {
                DevEvent::TransferError => {
                    self.state = DevState::Failed { err: EnumerationError::TransferFailed };
                    DevAction::Fail(EnumerationError::TransferFailed)
                },
                DevEvent::Data(b) => {
                    proof {
                        assert(b@.skip(0) =~= b@);
                    }
                    match parse_record(b.as_slice(), 0) {
                        Some(Ok((DescriptorAny::Configuration(cfg), _n))) => {
                            self.state = DevState::ReadingFullConfig { base: cfg };
                            DevAction::ControlIn {
                                request: get_descriptor_request(2, 0, cfg.total_length),
                            }
                        },
                        _ => {
                            self.state = DevState::Failed { err: EnumerationError::Parse };
                            DevAction::Fail(EnumerationError::Parse)
                        },
                    }
                },
                _ => {
                    proof {
                        assert(false);
                    }
                    DevAction::Done
                },
            },
            DevState::ReadingFullConfig { base } => match ev {
                DevEvent::TransferError => {
                    self.state = DevState::Failed { err: EnumerationError::TransferFailed };
                    DevAction::Fail(EnumerationError::TransferFailed)
                },
                DevEvent::Data(b) => {
                    let blen = b.len();
                    if blen < base.length as usize {
                        self.state = DevState::Failed { err: EnumerationError::Parse };
                        DevAction::Fail(EnumerationError::Parse)
                    } else {
                        let body = copy_range(b.as_slice(), base.length as usize, blen);
                        proof {
                            assert(body@ =~= b@.skip(base.length as int));
                        }
                        match split_interfaces(body.as_slice()) {
                            Ok(gs) => {
                                self.groups = gs;
                                if self.groups.len() == 0 {
                                    self.state = DevState::Running;
                                    DevAction::Done
                                } else {
                                    let idx = self.groups[0].desc.interface_str;
                                    self.state = DevState::BindingIfaceStr { k: 0 };
                                    string_action(idx)
                                }
                            },
                            Err(_) => {
                                self.state = DevState::Failed { err: EnumerationError::Parse };
                                DevAction::Fail(EnumerationError::Parse)
                            },
                        }
                    }
                },
                _ => {
                    proof {
                        assert(false);
                    }
                    DevAction::Done
                },
            },
            DevState::BindingIfaceStr { k } => {
                let idx = self.groups[k].desc.interface_str;
                if matches!(ev, DevEvent::TransferError) {
                    self.state = DevState::Failed { err: EnumerationError::TransferFailed };
                    DevAction::Fail(EnumerationError::TransferFailed)
                } else if string_step_ok(idx, &ev) {
                    let fc = full_class(&self.groups[k].desc);
                    self.state = DevState::BindingIfaceDriver { k };
                    DevAction::LookupDriver(fc)
                } else {
                    self.state = DevState::Failed { err: EnumerationError::StringDecode };
                    DevAction::Fail(EnumerationError::StringDecode)
                }
            },
            DevState::BindingIfaceDriver { k } => match ev {
                DevEvent::Driver(opt) => {
                    match spawn_interface(self.addr, &self.groups[k], opt) {
                        Ok(i) => {
                            let glen = self.groups.len();
                            let ghost ifs0 = self.interfaces@;
                            self.interfaces.push(i);
                            proof {
                                assert(self.interfaces@.subrange(0, ifs0.len() as int) =~= ifs0);
                            }
                            if k + 1 < glen {
                                let idx = self.groups[k + 1].desc.interface_str;
                                self.state = DevState::BindingIfaceStr { k: k + 1 };
                                string_action(idx)
                            } else {
                                self.state = DevState::Running;
                                DevAction::Done
                            }
                        },
                        Err(e) => {
                            self.state = DevState::Failed { err: e };
                            DevAction::Fail(e)
                        },
                    }
                },
                _ => {
                    proof {
                        assert(false);
                    }
                    DevAction::Done
                },
            },
            DevState::Running => {
                proof {
                    assert(false);
                }
                DevAction::Done
            },
            DevState::Failed { .. } => {
                proof {
                    assert(false);
                }
                DevAction::Done
            },
        }
    }
}

} // verus!
