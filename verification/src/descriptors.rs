//! USB descriptor records and their parser.
//!
//! Descriptors arrive concatenated: each record starts with a length byte
//! and a type byte, followed by type-specific fields with 16-bit words in
//! little-endian order. The parser walks such a blob record by record,
//! never reading past the record length, and yields a typed variant (or a
//! parse error) per record.

use vstd::prelude::*;
use crate::setup::{word16, lo8, hi8, lemma_word16_round_trip};

verus! {

/// A record could not be decoded: it was truncated, shorter than its
/// type requires, or its length byte is inconsistent.
#[derive(Clone, Copy, Debug, PartialEq, Eq, Structural)]
pub struct ParseError;

/// Descriptor type byte of a device descriptor.
pub const DESC_TYPE_DEVICE: u16 = 1;

/// Descriptor type byte of a configuration descriptor.
pub const DESC_TYPE_CONFIGURATION: u16 = 2;

/// Descriptor type byte of a string descriptor.
pub const DESC_TYPE_STRING: u16 = 3;

/// Descriptor type byte of an interface descriptor.
pub const DESC_TYPE_INTERFACE: u16 = 4;

/// Descriptor type byte of an endpoint descriptor.
pub const DESC_TYPE_ENDPOINT: u16 = 5;

/// The 18-byte device descriptor.
#[derive(Clone, Copy, Debug, PartialEq, Eq, Structural)]
pub struct DescriptorDevice {
    pub length: u8,
    pub usb_version: u16,
    pub device_class: u8,
    pub device_sub_class: u8,
    pub device_protocol: u8,
    pub max_packet_size_ep0: u8,
    pub vendor_id: u16,
    pub device_id: u16,
    pub device_version: u16,
    pub manufacturer_str: u8,
    pub product_str: u8,
    pub serial_number_str: u8,
    pub num_configurations: u8,
}

/// The 9-byte configuration descriptor header.
#[derive(Clone, Copy, Debug, PartialEq, Eq, Structural)]
pub struct DescriptorConfiguration {
    pub length: u8,
    pub total_length: u16,
    pub num_interfaces: u8,
    pub configuration_value: u8,
    pub configuration_str: u8,
    pub attributes: u8,
    pub max_power: u8,
}

/// The 9-byte interface descriptor.
#[derive(Clone, Copy, Debug, PartialEq, Eq, Structural)]
pub struct DescriptorInterface {
    pub length: u8,
    pub interface_num: u8,
    pub alternate_setting: u8,
    pub num_endpoints: u8,
    pub interface_class: u8,
    pub interface_sub_class: u8,
    pub interface_protocol: u8,
    pub interface_str: u8,
}

/// The 7-byte endpoint descriptor. The two max-packet-size bytes are
/// kept raw; only the low 11 bits carry the size.
#[derive(Clone, Copy, Debug, PartialEq, Eq)]
pub struct DescriptorEndpoint {
    pub length: u8,
    pub address: u8,
    pub attributes: u8,
    pub max_packet_size: (u8, u8),
    pub max_polling_interval: u8,
}

/// A string descriptor: UTF-16LE code units after the two header bytes.
#[derive(Clone, Debug, PartialEq, Eq)]
pub struct DescriptorString {
    pub length: u8,
    pub utf16: Vec<u16>,
}

/// Any record the descriptor walk can yield.
#[derive(Clone, Debug, PartialEq, Eq)]
pub enum DescriptorAny {
    Device(DescriptorDevice),
    Configuration(DescriptorConfiguration),
    String(DescriptorString),
    Interface(DescriptorInterface),
    Endpoint(DescriptorEndpoint),
    /// A record of a type the stack does not interpret; the raw bytes,
    /// header included.
    Unknown(Vec<u8>),
}

/// Mathematical image of a string descriptor.
pub struct StringView {
    pub length: u8,
    pub utf16: Seq<u16>,
}

/// Mathematical image of any record; what contracts and the round-trip
/// law speak about.
pub enum DescView {
    Device(DescriptorDevice),
    Configuration(DescriptorConfiguration),
    String(StringView),
    Interface(DescriptorInterface),
    Endpoint(DescriptorEndpoint),
    Unknown(Seq<u8>),
}

impl View for DescriptorString {
    type V = StringView;

    open spec fn view(&self) -> StringView {
        StringView { length: self.length, utf16: self.utf16@ }
    }
}

impl View for DescriptorAny {
    type V = DescView;

    open spec fn view(&self) -> DescView {
        match *self {
            DescriptorAny::Device(v) => DescView::Device(v),
            DescriptorAny::Configuration(v) => DescView::Configuration(v),
            DescriptorAny::String(ref v) => DescView::String(v@),
            DescriptorAny::Interface(v) => DescView::Interface(v),
            DescriptorAny::Endpoint(v) => DescView::Endpoint(v),
            DescriptorAny::Unknown(ref v) => DescView::Unknown(v@),
        }
    }
}

/// A device descriptor whose length byte matches its wire size.
pub open spec fn wf_device(d: DescriptorDevice) -> bool {
    d.length == 18
}

/// A configuration descriptor whose length byte matches its wire size.
pub open spec fn wf_configuration(d: DescriptorConfiguration) -> bool {
    d.length == 9
}

/// An interface descriptor whose length byte matches its wire size.
pub open spec fn wf_interface(d: DescriptorInterface) -> bool {
    d.length == 9
}

/// An endpoint descriptor whose length byte matches its wire size.
pub open spec fn wf_endpoint(d: DescriptorEndpoint) -> bool {
    d.length == 7
}

/// A string descriptor whose length byte matches its code-unit count.
pub open spec fn wf_string(d: StringView) -> bool {
    d.length == 2 + 2 * d.utf16.len() && d.utf16.len() <= 126
}

/// An unknown record that is self-consistent: at least the two header
/// bytes, a length byte equal to its size, and a type byte that no typed
/// variant claims.
pub open spec fn wf_unknown(data: Seq<u8>) -> bool {
    &&& 2 <= data.len() <= 255
    &&& data[0] == data.len()
    &&& !(1 <= data[1] <= 5)
}

/// A record value that a well-formed descriptor blob can contain.
pub open spec fn wf_descriptor(d: DescView) -> bool {
    match d {
        DescView::Device(v) => wf_device(v),
        DescView::Configuration(v) => wf_configuration(v),
        DescView::String(v) => wf_string(v),
        DescView::Interface(v) => wf_interface(v),
        DescView::Endpoint(v) => wf_endpoint(v),
        DescView::Unknown(v) => wf_unknown(v),
    }
}

/// Wire image of a device descriptor.
pub open spec fn spec_encode_device(d: DescriptorDevice) -> Seq<u8> {
    seq![
        d.length,
        1u8,
        lo8(d.usb_version),
        hi8(d.usb_version),
        d.device_class,
        d.device_sub_class,
        d.device_protocol,
        d.max_packet_size_ep0,
        lo8(d.vendor_id),
        hi8(d.vendor_id),
        lo8(d.device_id),
        hi8(d.device_id),
        lo8(d.device_version),
        hi8(d.device_version),
        d.manufacturer_str,
        d.product_str,
        d.serial_number_str,
        d.num_configurations,
    ]
}

/// Wire image of a configuration descriptor header.
pub open spec fn spec_encode_configuration(d: DescriptorConfiguration) -> Seq<u8> {
    seq![
        d.length,
        2u8,
        lo8(d.total_length),
        hi8(d.total_length),
        d.num_interfaces,
        d.configuration_value,
        d.configuration_str,
        d.attributes,
        d.max_power,
    ]
}

/// Wire image of an interface descriptor.
pub open spec fn spec_encode_interface(d: DescriptorInterface) -> Seq<u8> {
    seq![
        d.length,
        4u8,
        d.interface_num,
        d.alternate_setting,
        d.num_endpoints,
        d.interface_class,
        d.interface_sub_class,
        d.interface_protocol,
        d.interface_str,
    ]
}

/// Wire image of an endpoint descriptor.
pub open spec fn spec_encode_endpoint(d: DescriptorEndpoint) -> Seq<u8> {
    seq![
        d.length,
        5u8,
        d.address,
        d.attributes,
        d.max_packet_size.0,
        d.max_packet_size.1,
        d.max_polling_interval,
    ]
}

/// Wire image of a string descriptor: header bytes then each code unit
/// little-endian.
pub open spec fn spec_encode_string(d: StringView) -> Seq<u8> {
    seq![d.length, 3u8] + Seq::new(
        2 * d.utf16.len(),
        |i: int| if i % 2 == 0 {
            lo8(d.utf16[i / 2])
        } else {
            hi8(d.utf16[i / 2])
        },
    )
}

/// Wire image of any record.
pub open spec fn spec_encode(d: DescView) -> Seq<u8> {
    match d {
        DescView::Device(v) => spec_encode_device(v),
        DescView::Configuration(v) => spec_encode_configuration(v),
        DescView::String(v) => spec_encode_string(v),
        DescView::Interface(v) => spec_encode_interface(v),
        DescView::Endpoint(v) => spec_encode_endpoint(v),
        DescView::Unknown(v) => v,
    }
}

/// Concatenated wire image of a record sequence.
pub open spec fn spec_encode_all(s: Seq<DescView>) -> Seq<u8>
    decreases s.len(),
{
    if s.len() == 0 {
        Seq::empty()
    } else {
        spec_encode(s[0]) + spec_encode_all(s.skip(1))
    }
}

/// The device descriptor whose wire image starts `b` (first 18 bytes).
pub open spec fn spec_parse_device(b: Seq<u8>) -> DescriptorDevice {
    DescriptorDevice {
        length: b[0],
        usb_version: word16(b[2], b[3]),
        device_class: b[4],
        device_sub_class: b[5],
        device_protocol: b[6],
        max_packet_size_ep0: b[7],
        vendor_id: word16(b[8], b[9]),
        device_id: word16(b[10], b[11]),
        device_version: word16(b[12], b[13]),
        manufacturer_str: b[14],
        product_str: b[15],
        serial_number_str: b[16],
        num_configurations: b[17],
    }
}

/// The configuration descriptor whose wire image starts `b`.
pub open spec fn spec_parse_configuration(b: Seq<u8>) -> DescriptorConfiguration {
    DescriptorConfiguration {
        length: b[0],
        total_length: word16(b[2], b[3]),
        num_interfaces: b[4],
        configuration_value: b[5],
        configuration_str: b[6],
        attributes: b[7],
        max_power: b[8],
    }
}

/// The interface descriptor whose wire image starts `b`.
pub open spec fn spec_parse_interface(b: Seq<u8>) -> DescriptorInterface {
    DescriptorInterface {
        length: b[0],
        interface_num: b[2],
        alternate_setting: b[3],
        num_endpoints: b[4],
        interface_class: b[5],
        interface_sub_class: b[6],
        interface_protocol: b[7],
        interface_str: b[8],
    }
}

/// The endpoint descriptor whose wire image starts `b`.
pub open spec fn spec_parse_endpoint(b: Seq<u8>) -> DescriptorEndpoint {
    DescriptorEndpoint {
        length: b[0],
        address: b[2],
        attributes: b[3],
        max_packet_size: (b[4], b[5]),
        max_polling_interval: b[6],
    }
}

/// The code units of a string record of length byte `n` at the start of
/// `b`.
pub open spec fn spec_parse_string_units(b: Seq<u8>, n: int) -> Seq<u16> {
    Seq::new(((n - 2) / 2) as nat, |i: int| word16(b[2 + 2 * i], b[3 + 2 * i]))
}

/// The record at the start of `b`, with the number of bytes it occupies.
///
/// `None` when `b` is empty (the walk is finished); an error when the
/// record is truncated, its length byte is shorter than the header or
/// than its type requires, or a string record has an odd length.
pub open spec fn spec_parse_record(b: Seq<u8>) -> Option<Result<(DescView, int), ParseError>> {
    if b.len() == 0 {
        None
    } else if b.len() < 2 {
        Some(Err(ParseError))
    } else {
        let n = b[0] as int;
        if n < 2 || n > b.len() {
            Some(Err(ParseError))
        } else {
            let ty = b[1];
            if ty == 1 {
                if n < 18 {
                    Some(Err(ParseError))
                } else {
                    Some(Ok((DescView::Device(spec_parse_device(b)), n)))
                }
            } else if ty == 2 {
                if n < 9 {
                    Some(Err(ParseError))
                } else {
                    Some(Ok((DescView::Configuration(spec_parse_configuration(b)), n)))
                }
            } else if ty == 3 {
                if n % 2 != 0 {
                    Some(Err(ParseError))
                } else {
                    Some(Ok((
                        DescView::String(
                            StringView { length: b[0], utf16: spec_parse_string_units(b, n) },
                        ),
                        n,
                    )))
                }
            } else if ty == 4 {
                if n < 9 {
                    Some(Err(ParseError))
                } else {
                    Some(Ok((DescView::Interface(spec_parse_interface(b)), n)))
                }
            } else if ty == 5 {
                if n < 7 {
                    Some(Err(ParseError))
                } else {
                    Some(Ok((DescView::Endpoint(spec_parse_endpoint(b)), n)))
                }
            } else {
                Some(Ok((DescView::Unknown(b.take(n)), n)))
            }
        }
    }
}

/// Read the little-endian 16-bit word at `i`.
fn read_u16(buf: &[u8], i: usize) -> (r: u16)
    requires
        i + 1 < buf@.len(),
    ensures
        r == word16(buf@[i as int], buf@[i + 1]),
{
    (buf[i] as u16) | ((buf[i + 1] as u16) << 8)
}

/// Parse the record starting at `pos`: `None` at the end of the blob,
/// the typed record and its size on success. The record is never read
/// past its length byte, and the length byte is never trusted past the
/// end of the blob.
pub fn parse_record(buf: &[u8], pos: usize) -> (r: Option<
    Result<(DescriptorAny, usize), ParseError>,
>)
    requires
        pos <= buf@.len(),
    ensures
        ({
            let sr = spec_parse_record(buf@.skip(pos as int));
            match r {
                None => sr is None,
                Some(Err(e)) => sr == Some(Err::<(DescView, int), ParseError>(e)),
                Some(Ok((d, n))) => {
                    &&& sr == Some(Ok::<(DescView, int), ParseError>((d@, n as int)))
                    &&& 2 <= n
                    &&& pos + n <= buf@.len()
                },
            }
        }),
{
    let ghost b = buf@.skip(pos as int);
    let len = buf.len();
    if pos == len {
        return None;
    }
    if len - pos < 2 {
        return Some(Err(ParseError));
    }
    let n = buf[pos] as usize;
    if n < 2 || n > len - pos {
        return Some(Err(ParseError));
    }
    let ty = buf[pos + 1];
    proof {
        assert(b[0] == buf@[pos as int]);
        assert(b[1] == buf@[pos + 1]);
    }
    if ty == 1 {
        if n < 18 {
            return Some(Err(ParseError));
        }
        let d = DescriptorDevice {
            length: buf[pos],
            usb_version: read_u16(buf, pos + 2),
            device_class: buf[pos + 4],
            device_sub_class: buf[pos + 5],
            device_protocol: buf[pos + 6],
            max_packet_size_ep0: buf[pos + 7],
            vendor_id: read_u16(buf, pos + 8),
            device_id: read_u16(buf, pos + 10),
            device_version: read_u16(buf, pos + 12),
            manufacturer_str: buf[pos + 14],
            product_str: buf[pos + 15],
            serial_number_str: buf[pos + 16],
            num_configurations: buf[pos + 17],
        };
        proof {
            assert(d == spec_parse_device(b));
        }
        Some(Ok((DescriptorAny::Device(d), n)))
    } else if ty == 2 {
        if n < 9 {
            return Some(Err(ParseError));
        }
        let d = DescriptorConfiguration {
            length: buf[pos],
            total_length: read_u16(buf, pos + 2),
            num_interfaces: buf[pos + 4],
            configuration_value: buf[pos + 5],
            configuration_str: buf[pos + 6],
            attributes: buf[pos + 7],
            max_power: buf[pos + 8],
        };
        proof {
            assert(d == spec_parse_configuration(b));
        }
        Some(Ok((DescriptorAny::Configuration(d), n)))
    } else if ty == 3 {
        if n % 2 != 0 {
            return Some(Err(ParseError));
        }
        let count = (n - 2) / 2;
        let mut utf16: Vec<u16> = Vec::new();
        let mut k: usize = 0;
        while k < count
            invariant
                buf@.len() <= usize::MAX,
                pos + n <= buf@.len(),
                2 <= n <= 255,
                count == (n - 2) / 2,
                k <= count,
                utf16@.len() == k,
                forall|i: int|
                    0 <= i < k ==> utf16@[i] == word16(
                        buf@[pos + 2 + 2 * i],
                        buf@[pos + 3 + 2 * i],
                    ),
            decreases count - k,
        {
            utf16.push(read_u16(buf, pos + 2 + 2 * k));
            k = k + 1;
        }
        let d = DescriptorString { length: buf[pos], utf16 };
        proof {
            assert forall|i: int| 0 <= i < count implies d.utf16@[i] == word16(
                b[2 + 2 * i],
                b[3 + 2 * i],
            ) by {
                assert(b[2 + 2 * i] == buf@[pos + 2 + 2 * i]);
                assert(b[3 + 2 * i] == buf@[pos + 3 + 2 * i]);
            }
            assert(d@.utf16 =~= spec_parse_string_units(b, n as int));
        }
        Some(Ok((DescriptorAny::String(d), n)))
    } else if ty == 4 {
        if n < 9 {
            return Some(Err(ParseError));
        }
        let d = DescriptorInterface {
            length: buf[pos],
            interface_num: buf[pos + 2],
            alternate_setting: buf[pos + 3],
            num_endpoints: buf[pos + 4],
            interface_class: buf[pos + 5],
            interface_sub_class: buf[pos + 6],
            interface_protocol: buf[pos + 7],
            interface_str: buf[pos + 8],
        };
        proof {
            assert(d == spec_parse_interface(b));
        }
        Some(Ok((DescriptorAny::Interface(d), n)))
    } else if ty == 5 {
        if n < 7 {
            return Some(Err(ParseError));
        }
        let d = DescriptorEndpoint {
            length: buf[pos],
            address: buf[pos + 2],
            attributes: buf[pos + 3],
            max_packet_size: (buf[pos + 4], buf[pos + 5]),
            max_polling_interval: buf[pos + 6],
        };
        proof {
            assert(d == spec_parse_endpoint(b));
        }
        Some(Ok((DescriptorAny::Endpoint(d), n)))
    } else {
        let mut data: Vec<u8> = Vec::new();
        let mut k: usize = 0;
        while k < n
            invariant
                buf@.len() <= usize::MAX,
                pos + n <= buf@.len(),
                k <= n,
                data@.len() == k,
                forall|i: int| 0 <= i < k ==> data@[i] == buf@[pos + i],
            decreases n - k,
        {
            data.push(buf[pos + k]);
            k = k + 1;
        }
        proof {
            assert(data@ =~= b.take(n as int));
        }
        Some(Ok((DescriptorAny::Unknown(data), n)))
    }
}

/// Walks the records of a descriptor blob from front to back.
pub struct IterDescriptors<'a> {
    buf: &'a [u8],
    pos: usize,
}

impl<'a> IterDescriptors<'a> {
    /// The blob being walked.
    pub closed spec fn buf_view(self) -> Seq<u8> {
        self.buf@
    }

    /// How far the walk has come, in bytes.
    pub closed spec fn pos(self) -> int {
        self.pos as int
    }

    /// The walk never stands past the end of the blob.
    pub closed spec fn wf(self) -> bool {
        self.pos <= self.buf@.len()
    }

    /// Start a walk at the front of `buf`.
    pub fn new(buf: &'a [u8]) -> (r: IterDescriptors<'a>)
        ensures
            r.wf(),
            r.buf_view() == buf@,
            r.pos() == 0,
    {
        IterDescriptors { buf, pos: 0 }
    }

    /// The next record, or `None` when the blob is exhausted. On success
    /// the walk advances by the record's size; an error ends the walk.
    pub fn next(&mut self) -> (r: Option<Result<DescriptorAny, ParseError>>)
        requires
            old(self).wf(),
        ensures
            final(self).wf(),
            final(self).buf_view() == old(self).buf_view(),
            ({
                let sr = spec_parse_record(old(self).buf_view().skip(old(self).pos()));
                match r {
                    None => sr is None && final(self).pos() == old(self).pos(),
                    Some(Err(e)) => sr == Some(Err::<(DescView, int), ParseError>(e))
                        && final(self).pos() == final(self).buf_view().len(),
                    Some(Ok(d)) => {
                        &&& sr matches Some(Ok((sd, n))) && sd == d@ && final(self).pos()
                            == old(self).pos() + n
                        &&& final(self).pos() <= final(self).buf_view().len()
                    },
                }
            }),
    {
        // an exec read of the length brings its usize bound into scope
        let _slice_len = self.buf.len();
        match parse_record(self.buf, self.pos) {
            None => None,
            Some(Err(e)) => {
                self.pos = self.buf.len();
                Some(Err(e))
            },
            Some(Ok((d, n))) => {
                self.pos = self.pos + n;
                Some(Ok(d))
            },
        }
    }
}

/// All records of a blob, in order, or the first parse error.
pub fn parse_all(buf: &[u8]) -> (r: Result<Vec<DescriptorAny>, ParseError>)
    ensures
        match r {
            Ok(v) => spec_parse_all(buf@) matches Ok(s) && s.len() == v@.len() && (forall|
                i: int,
            | 0 <= i < v@.len() ==> #[trigger] v@[i]@ == s[i]),
            Err(e) => spec_parse_all(buf@) == Err::<Seq<DescView>, ParseError>(e),
        },
{
    let mut out: Vec<DescriptorAny> = Vec::new();
    let mut pos: usize = 0;
    // an exec read of the length brings its usize bound into scope
    let _blob_len = buf.len();
    proof {
        assert(buf@.skip(0) =~= buf@);
        match spec_parse_all(buf@) {
            Ok(tail) => {
                assert(Seq::new(out@.len(), |i: int| out@[i]@) + tail =~= tail);
            },
            Err(_) => {},
        }
    }
    loop
        invariant
            buf@.len() <= usize::MAX,
            pos <= buf@.len(),
            ({
                match spec_parse_all(buf@.skip(pos as int)) {
                    Ok(tail) => spec_parse_all(buf@) matches Ok(s) && s == Seq::new(
                        out@.len(),
                        |i: int| out@[i]@,
                    ) + tail,
                    Err(e) => spec_parse_all(buf@) == Err::<Seq<DescView>, ParseError>(e),
                }
            }),
        decreases buf@.len() - pos,
    {
        let ghost rest = buf@.skip(pos as int);
        match parse_record(buf, pos) {
            None => {
                proof {
                    assert(spec_parse_all(rest) == Ok::<Seq<DescView>, ParseError>(Seq::empty()));
                    assert(Seq::new(out@.len(), |i: int| out@[i]@) + Seq::<DescView>::empty()
                        =~= Seq::new(out@.len(), |i: int| out@[i]@));
                }
                return Ok(out);
            },
            Some(Err(e)) => {
                return Err(e);
            },
            Some(Ok((d, n))) => {
                let ghost out0 = out@;
                out.push(d);
                proof {
                    assert(rest.skip(n as int) =~= buf@.skip(pos + n));
                    match spec_parse_all(buf@.skip(pos + n)) {
                        Ok(tail) => {
                            assert(spec_parse_all(rest) == Ok::<Seq<DescView>, ParseError>(
                                seq![d@] + tail,
                            ));
                            assert(Seq::new(out0.len(), |i: int| out0[i]@) + (seq![d@] + tail)
                                =~= Seq::new(out@.len(), |i: int| out@[i]@) + tail);
                        },
                        Err(_) => {},
                    }
                }
                pos = pos + n;
            },
        }
    }
}

/// All records of a blob, in order; an error if any record fails.
pub open spec fn spec_parse_all(b: Seq<u8>) -> Result<Seq<DescView>, ParseError>
    decreases b.len(),
{
    match spec_parse_record(b) {
        None => Ok(Seq::empty()),
        Some(Err(e)) => Err(e),
        Some(Ok((d, n))) => match spec_parse_all(b.skip(n)) {
            Ok(rest) => Ok(seq![d] + rest),
            Err(e) => Err(e),
        },
    }
}


impl DescriptorAny {
    /// Encode the record as its wire bytes.
    pub fn encode(&self) -> (v: Vec<u8>)
        requires
            wf_descriptor(self@),
        ensures
            v@ == spec_encode(self@),
    {
        match self {
            DescriptorAny::Device(d) => {
                let v: Vec<u8> = vec![
                    d.length,
                    1u8,
                    (d.usb_version & 0xFF) as u8,
                    (d.usb_version >> 8) as u8,
                    d.device_class,
                    d.device_sub_class,
                    d.device_protocol,
                    d.max_packet_size_ep0,
                    (d.vendor_id & 0xFF) as u8,
                    (d.vendor_id >> 8) as u8,
                    (d.device_id & 0xFF) as u8,
                    (d.device_id >> 8) as u8,
                    (d.device_version & 0xFF) as u8,
                    (d.device_version >> 8) as u8,
                    d.manufacturer_str,
                    d.product_str,
                    d.serial_number_str,
                    d.num_configurations,
                ];
                proof {
                    assert(v@ =~= spec_encode_device(*d));
                }
                v
            },
            DescriptorAny::Configuration(d) => {
                let v: Vec<u8> = vec![
                    d.length,
                    2u8,
                    (d.total_length & 0xFF) as u8,
                    (d.total_length >> 8) as u8,
                    d.num_interfaces,
                    d.configuration_value,
                    d.configuration_str,
                    d.attributes,
                    d.max_power,
                ];
                proof {
                    assert(v@ =~= spec_encode_configuration(*d));
                }
                v
            },
            DescriptorAny::String(d) => {
                let mut v: Vec<u8> = vec![d.length, 3u8];
                let count = d.utf16.len();
                let mut k: usize = 0;
                while k < count
                    invariant
                        count == d.utf16@.len(),
                        count <= usize::MAX / 2,
                        k <= count,
                        v@.len() == 2 + 2 * k,
                        v@[0] == d.length,
                        v@[1] == 3u8,
                        forall|i: int|
                            0 <= i < k ==> v@[2 + 2 * i] == lo8(d.utf16@[i]) && v@[3 + 2 * i]
                                == hi8(d.utf16@[i]),
                    decreases count - k,
                {
                    let u = d.utf16[k];
                    v.push((u & 0xFF) as u8);
                    v.push((u >> 8) as u8);
                    k = k + 1;
                }
                proof {
                    assert(v@ =~= spec_encode_string(d@));
                }
                v
            },
            DescriptorAny::Interface(d) => {
                let v: Vec<u8> = vec![
                    d.length,
                    4u8,
                    d.interface_num,
                    d.alternate_setting,
                    d.num_endpoints,
                    d.interface_class,
                    d.interface_sub_class,
                    d.interface_protocol,
                    d.interface_str,
                ];
                proof {
                    assert(v@ =~= spec_encode_interface(*d));
                }
                v
            },
            DescriptorAny::Endpoint(d) => {
                let v: Vec<u8> = vec![
                    d.length,
                    5u8,
                    d.address,
                    d.attributes,
                    d.max_packet_size.0,
                    d.max_packet_size.1,
                    d.max_polling_interval,
                ];
                proof {
                    assert(v@ =~= spec_encode_endpoint(*d));
                }
                v
            },
            DescriptorAny::Unknown(data) => {
                let mut v: Vec<u8> = Vec::new();
                let n = data.len();
                let mut k: usize = 0;
                while k < n
                    invariant
                        n == data@.len(),
                        k <= n,
                        v@.len() == k,
                        forall|i: int| 0 <= i < k ==> v@[i] == data@[i],
                    decreases n - k,
                {
                    v.push(data[k]);
                    k = k + 1;
                }
                proof {
                    assert(v@ =~= data@);
                }
                v
            },
        }
    }
}

/// A well-formed record parses back from its own wire image, whatever
/// follows it, consuming exactly its own bytes.
pub proof fn lemma_record_round_trip(d: DescView, rest: Seq<u8>)
    requires
        wf_descriptor(d),
    ensures
        2 <= spec_encode(d).len() <= 255,
        spec_parse_record(spec_encode(d) + rest) == Some(
            Ok::<(DescView, int), ParseError>((d, spec_encode(d).len() as int)),
        ),
{
    let b = spec_encode(d) + rest;
    match d {
        DescView::Device(v) => {
            lemma_word16_round_trip(v.usb_version, 0, 0);
            lemma_word16_round_trip(v.vendor_id, 0, 0);
            lemma_word16_round_trip(v.device_id, 0, 0);
            lemma_word16_round_trip(v.device_version, 0, 0);
            assert(spec_parse_device(b) == v);
        },
        DescView::Configuration(v) => {
            lemma_word16_round_trip(v.total_length, 0, 0);
            assert(spec_parse_configuration(b) == v);
        },
        DescView::String(v) => {
            let n = v.length as int;
            let k = v.utf16.len() as int;
            assert(n == 2 + 2 * k);
            assert(n % 2 == 0) by (nonlinear_arith)
                requires n == 2 + 2 * k, k >= 0;
            assert((n - 2) / 2 == k);
            assert forall|i: int| 0 <= i < k implies spec_parse_string_units(b, n)[i]
                == v.utf16[i] by {
                assert(b[2 + 2 * i] == lo8(v.utf16[i]));
                assert(b[3 + 2 * i] == hi8(v.utf16[i]));
                lemma_word16_round_trip(v.utf16[i], 0, 0);
            }
            assert(spec_parse_string_units(b, n) =~= v.utf16);
            assert(StringView { length: b[0], utf16: spec_parse_string_units(b, n) } == v);
        },
        DescView::Interface(v) => {
            assert(spec_parse_interface(b) == v);
        },
        DescView::Endpoint(v) => {
            assert(spec_parse_endpoint(b) == v);
        },
        DescView::Unknown(data) => {
            assert(b.take(data.len() as int) =~= data);
        },
    }
}

/// Concatenating the wire images of any sequence of well-formed records
/// and parsing the result yields the original sequence.
pub proof fn lemma_descriptor_seq_round_trip(s: Seq<DescView>)
    requires
        forall|i: int| 0 <= i < s.len() ==> wf_descriptor(#[trigger] s[i]),
    ensures
        spec_parse_all(spec_encode_all(s)) == Ok::<Seq<DescView>, ParseError>(s),
    decreases s.len(),
{
    if s.len() == 0 {
        assert(s =~= Seq::<DescView>::empty());
        assert(spec_encode_all(s) == Seq::<u8>::empty());
    } else {
        let d = s[0];
        let enc = spec_encode(d);
        let rest = spec_encode_all(s.skip(1));
        lemma_record_round_trip(d, rest);
        assert((enc + rest).skip(enc.len() as int) =~= rest);
        assert(forall|i: int| 0 <= i < s.skip(1).len() ==> wf_descriptor(#[trigger] s.skip(1)[i]));
        lemma_descriptor_seq_round_trip(s.skip(1));
        assert(seq![d] + s.skip(1) =~= s);
    }
}

} // verus!
