//! The cartridge header: the first 64 bytes of an image.

use vstd::prelude::*;
use vstd::string::StringSliceAdditionalSpecFns;
use crate::ipl3::IPL3;
use crate::ipl3::HEADER_SIZE;

verus! {

/// Width in bytes of the program name in the header.
pub const NAME_SIZE: usize = 20;

/// The byte that fills a name shorter than the field.
pub const NAME_FILL: u8 = 0x20;

/// The header of a cartridge, field by field in the order of the image.
#[derive(Debug, Clone, Copy)]
pub struct N64Header {
    // 0x00
    /// PI_BSD_DOM1_LAT_REG
    pub device_latency: u8,
    /// PI_BSD_DOM1_PWD_REG
    pub device_rw_pulse_width: u8,
    /// PI_BSD_DOM1_PGS_REG
    pub device_page_size: u8,
    /// PI_BSD_DOM1_RLS_REG
    pub device_rw_release_duration: u8,
    /// Unused by IPL and OS
    pub clock_rate: u32,
    /// Executable start address/entry point
    pub entry_point: u32,
    /// Unused by IPL and OS
    pub release: u32,
    // 0x10
    pub crc1: u32,
    pub crc2: u32,
    pub _reserved_1: [u8; 8],
    // 0x20
    pub name: [u8; 20],
    pub _reserved_2: [u8; 7],
    pub manufacturer: u8,
    pub cart_id: [u8; 2],
    pub region_code: u8,
    pub _reserved_3: u8,
}

/// The four bytes of a word, most significant first.
pub open spec fn be_bytes(x: u32) -> Seq<u8> {
    seq![
        (x / 0x100_0000) as u8,
        (x / 0x1_0000 % 0x100) as u8,
        (x / 0x100 % 0x100) as u8,
        (x % 0x100) as u8,
    ]
}

/// A name as the header stores it: cut after `NAME_SIZE` bytes, or filled up
/// to that width with spaces.
pub open spec fn name_field(name: Seq<u8>) -> Seq<u8> {
    Seq::new(
        NAME_SIZE as nat,
        |i: int|
            if i < name.len() {
                name[i]
            } else {
                NAME_FILL
            },
    )
}

/// `count` zero bytes.
pub open spec fn zeros(count: nat) -> Seq<u8> {
    Seq::new(count, |i: int| 0u8)
}

/// The 64 bytes of the header that this tool writes for an entry point as
/// stored, the two checksums and a name field of `NAME_SIZE` bytes.
pub open spec fn header_bytes(entry_point: u32, crc1: u32, crc2: u32, name: Seq<u8>) -> Seq<u8> {
    seq![128u8, 55u8, 18u8, 64u8] + be_bytes(15) + be_bytes(entry_point) + be_bytes(0) + be_bytes(
        crc1,
    ) + be_bytes(crc2) + zeros(8) + name + zeros(7) + seq![0x4eu8, 0x4bu8, 0x57u8, 0x45u8, 0u8]
}

/// Splits a word into its bytes, most significant first.
pub fn to_be_bytes(x: u32) -> (bytes: [u8; 4])
    ensures
        bytes@ == be_bytes(x),
{
    let bytes = [
        (x / 0x100_0000) as u8,
        (x / 0x1_0000 % 0x100) as u8,
        (x / 0x100 % 0x100) as u8,
        (x % 0x100) as u8,
    ];
    assert(bytes@ =~= be_bytes(x));
    bytes
}

/// Lays a name out in the header's field.
fn name_bytes(name: &[u8]) -> (field: [u8; 20])
    ensures
        field@ == name_field(name@),
{
    let mut field = [NAME_FILL; 20];
    let mut i: usize = 0;
    while i < NAME_SIZE && i < name.len()
        invariant
            i <= NAME_SIZE,
            i <= name@.len(),
            forall|j: int| 0 <= j < i ==> field@[j] == name@[j],
            forall|j: int| i <= j < NAME_SIZE ==> field@[j] == NAME_FILL,
        decreases NAME_SIZE - i,
    {
        field[i] = name[i];
        i += 1;
    }
    assert(field@ =~= name_field(name@));
    field
}

impl N64Header {
    /// The bytes of the header in the image.
    pub open spec fn encoding(&self) -> Seq<u8> {
        seq![
            self.device_latency,
            self.device_rw_pulse_width,
            self.device_page_size,
            self.device_rw_release_duration,
        ] + be_bytes(self.clock_rate) + be_bytes(self.entry_point) + be_bytes(self.release)
            + be_bytes(self.crc1) + be_bytes(self.crc2) + self._reserved_1@ + self.name@
            + self._reserved_2@ + seq![self.manufacturer] + self.cart_id@ + seq![
            self.region_code,
            self._reserved_3,
        ]
    }

    /// Fills in the header of an image that holds `program` and `fs` behind
    /// the boot code `ipl3`.
    ///
    /// The device fields, the clock rate, the release, the maker, the
    /// cartridge id and the region are fixed. The entry point is stored with
    /// the offset of the boot code added, the checksums are those of
    /// `program` and `fs`, and the name is cut or filled to `NAME_SIZE` bytes.
    pub fn new(entry_point: u32, name_str: &str, program: &[u8], fs: &[u8], ipl3: &IPL3) -> (header:
        N64Header)
        requires
            entry_point + ipl3.entry_offset() <= u32::MAX,
            name_str.is_ascii(),
            program@.len() % 4 == 0,
            fs@.len() % 4 == 0,
        ensures
            header.encoding() == header_bytes(
                (entry_point + ipl3.entry_offset()) as u32,
                ipl3.checksums(program@, fs@).0,
                ipl3.checksums(program@, fs@).1,
                name_field(name_str.spec_bytes()),
            ),
            header.entry_point == entry_point + ipl3.entry_offset(),
            (header.crc1, header.crc2) == ipl3.checksums(program@, fs@),
            header.name@ == name_field(name_str.spec_bytes()),
    {
        let (crc1, crc2) = ipl3.compute_crcs(program, fs);
        let entry_point = ipl3.offset(entry_point);
        let name = name_bytes(name_str.as_bytes());
        // KodeWerx!
        let cart_id = [0x4bu8, 0x57u8];
        let header = N64Header {
            // 0x00
            device_latency: 128,
            device_rw_pulse_width: 55,
            device_page_size: 18,
            device_rw_release_duration: 64,
            clock_rate: 15,
            entry_point,
            release: 0,
            // 0x10
            crc1,
            crc2,
            _reserved_1: [0; 8],
            // 0x20
            name,
            _reserved_2: [0; 7],
            // Nintendo
            manufacturer: 0x4e,
            cart_id,
            // USA/English
            region_code: 0x45,
            _reserved_3: 0,
        };
        assert(header._reserved_1@ =~= zeros(8));
        assert(header._reserved_2@ =~= zeros(7));
        assert(header.encoding() =~= header_bytes(entry_point, crc1, crc2, name@));
        header
    }

    /// The header as it stands in the image: `HEADER_SIZE` bytes.
    pub fn to_vec(self) -> (buffer: Vec<u8>)
        ensures
            buffer@ == self.encoding(),
            buffer@.len() == HEADER_SIZE,
    {
        // 0x00
        let mut buffer: Vec<u8> = Vec::new();
        buffer.push(self.device_latency);
        buffer.push(self.device_rw_pulse_width);
        buffer.push(self.device_page_size);
        buffer.push(self.device_rw_release_duration);
        buffer.extend_from_slice(to_be_bytes(self.clock_rate).as_slice());
        buffer.extend_from_slice(to_be_bytes(self.entry_point).as_slice());
        buffer.extend_from_slice(to_be_bytes(self.release).as_slice());

        // 0x10
        buffer.extend_from_slice(to_be_bytes(self.crc1).as_slice());
        buffer.extend_from_slice(to_be_bytes(self.crc2).as_slice());
        buffer.extend_from_slice(self._reserved_1.as_slice());

        // 0x20
        buffer.extend_from_slice(self.name.as_slice());
        buffer.extend_from_slice(self._reserved_2.as_slice());
        buffer.push(self.manufacturer);
        buffer.extend_from_slice(self.cart_id.as_slice());
        buffer.push(self.region_code);
        buffer.push(self._reserved_3);

        assert(buffer@ =~= self.encoding());
        buffer
    }
}

} // verus!
