//! Byte-exact layout of the two PE records this crate reads and writes:
//! the 64-byte DOS header at offset 0 and the 20-byte COFF file header.
//! Every field is a fixed-width little-endian integer with no padding, so
//! records are decoded and encoded field by field at fixed byte offsets.

use vstd::prelude::*;

verus! {

/// Magic signature of the DOS (compatibility) header: "MZ".
pub const IMAGE_DOS_SIGNATURE: u16 = 0x5A4D;

/// Magic signature that precedes the file header: "PE\0\0".
pub const IMAGE_NT_SIGNATURE: u32 = 0x00004550;

/// Bit of the characteristics bitmask that marks an executable as
/// large-address aware.
pub const IMAGE_FILE_LARGE_ADDRESS_AWARE: u16 = 0x0020;

/// On-disk size of the DOS header in bytes.
pub const DOS_HEADER_SIZE: usize = 64;

/// On-disk size of the file header in bytes, the 4-byte signature that
/// precedes it not included.
pub const FILE_HEADER_SIZE: usize = 20;

/// DOS Header - 64 bytes at the start of every PE file.
#[derive(Debug, Clone, Copy)]
pub struct ImageDosHeader {
    /// Magic number (MZ = 0x5A4D)
    pub e_magic: u16,
    /// Bytes on last page of file
    pub e_cblp: u16,
    /// Pages in file
    pub e_cp: u16,
    /// Relocations
    pub e_crlc: u16,
    /// Size of header in paragraphs
    pub e_cparhdr: u16,
    /// Minimum extra paragraphs needed
    pub e_minalloc: u16,
    /// Maximum extra paragraphs needed
    pub e_maxalloc: u16,
    /// Initial SS value
    pub e_ss: u16,
    /// Initial SP value
    pub e_sp: u16,
    /// Checksum
    pub e_csum: u16,
    /// Initial IP value
    pub e_ip: u16,
    /// Initial CS value
    pub e_cs: u16,
    /// File address of relocation table
    pub e_lfarlc: u16,
    /// Overlay number
    pub e_ovno: u16,
    /// Reserved words
    pub e_res: [u16; 4],
    /// OEM identifier
    pub e_oemid: u16,
    /// OEM information
    pub e_oeminfo: u16,
    /// Reserved words
    pub e_res2: [u16; 10],
    /// File address of PE header
    pub e_lfanew: i32,
}

/// File Header - the 20-byte record after the "PE\0\0" signature.
#[derive(Debug, Clone, Copy, PartialEq, Eq, Structural)]
pub struct ImageFileHeader {
    /// Target machine type
    pub machine: u16,
    /// Number of sections
    pub number_of_sections: u16,
    /// Time/date stamp
    pub time_date_stamp: u32,
    /// File offset to COFF symbol table
    pub pointer_to_symbol_table: u32,
    /// Number of symbols
    pub number_of_symbols: u32,
    /// Size of optional header
    pub size_of_optional_header: u16,
    /// File characteristics flags
    pub characteristics: u16,
}

/// A 16-bit little-endian value built from two bytes.
pub open spec fn le16(b0: u8, b1: u8) -> u16 {
    (b0 as u16) | ((b1 as u16) << 8)
}

/// A 32-bit little-endian value built from four bytes.
pub open spec fn le32(b0: u8, b1: u8, b2: u8, b3: u8) -> u32 {
    (b0 as u32) | ((b1 as u32) << 8) | ((b2 as u32) << 16) | ((b3 as u32) << 24)
}

/// The 16-bit little-endian value at byte offset `i` of `d`.
pub open spec fn le16_at(d: Seq<u8>, i: int) -> u16
    recommends
        0 <= i,
        i + 2 <= d.len(),
{
    le16(d[i], d[i + 1])
}

/// The 32-bit little-endian value at byte offset `i` of `d`.
pub open spec fn le32_at(d: Seq<u8>, i: int) -> u32
    recommends
        0 <= i,
        i + 4 <= d.len(),
{
    le32(d[i], d[i + 1], d[i + 2], d[i + 3])
}

/// Low byte of a 16-bit value.
pub open spec fn lo16(x: u16) -> u8 {
    (x & 0xff) as u8
}

/// High byte of a 16-bit value.
pub open spec fn hi16(x: u16) -> u8 {
    ((x >> 8) & 0xff) as u8
}

/// Least significant byte of a 32-bit value.
pub open spec fn byte0(x: u32) -> u8 {
    (x & 0xff) as u8
}

/// Second byte of a 32-bit value.
pub open spec fn byte1(x: u32) -> u8 {
    ((x >> 8) & 0xff) as u8
}

/// Third byte of a 32-bit value.
pub open spec fn byte2(x: u32) -> u8 {
    ((x >> 16) & 0xff) as u8
}

/// Most significant byte of a 32-bit value.
pub open spec fn byte3(x: u32) -> u8 {
    ((x >> 24) & 0xff) as u8
}

pub(crate) fn read_le16(d: &Vec<u8>, i: usize) -> (r: u16)
    requires
        i + 2 <= d@.len(),
    ensures
        r == le16_at(d@, i as int),
{
    let n: usize = d.len();
    assert(i + 2 <= n);
    (d[i] as u16) | ((d[i + 1] as u16) << 8)
}

pub(crate) fn read_le32(d: &Vec<u8>, i: usize) -> (r: u32)
    requires
        i + 4 <= d@.len(),
    ensures
        r == le32_at(d@, i as int),
{
    let n: usize = d.len();
    assert(i + 4 <= n);
    (d[i] as u32) | ((d[i + 1] as u32) << 8) | ((d[i + 2] as u32) << 16) | ((d[i + 3] as u32)
        << 24)
}

fn le16_lo(x: u16) -> (r: u8)
    ensures
        r == lo16(x),
{
    proof {
        assert((x & 0xff) < 256) by (bit_vector);
    }
    (x & 0xff) as u8
}

fn le16_hi(x: u16) -> (r: u8)
    ensures
        r == hi16(x),
{
    proof {
        assert(((x >> 8) & 0xff) < 256) by (bit_vector);
    }
    ((x >> 8) & 0xff) as u8
}

fn le32_b0(x: u32) -> (r: u8)
    ensures
        r == byte0(x),
{
    proof {
        assert((x & 0xff) < 256) by (bit_vector);
    }
    (x & 0xff) as u8
}

fn le32_b1(x: u32) -> (r: u8)
    ensures
        r == byte1(x),
{
    proof {
        assert(((x >> 8) & 0xff) < 256) by (bit_vector);
    }
    ((x >> 8) & 0xff) as u8
}

fn le32_b2(x: u32) -> (r: u8)
    ensures
        r == byte2(x),
{
    proof {
        assert(((x >> 16) & 0xff) < 256) by (bit_vector);
    }
    ((x >> 16) & 0xff) as u8
}

fn le32_b3(x: u32) -> (r: u8)
    ensures
        r == byte3(x),
{
    proof {
        assert(((x >> 24) & 0xff) < 256) by (bit_vector);
    }
    ((x >> 24) & 0xff) as u8
}

/// The file header whose 20-byte on-disk image starts at byte offset `i`
/// of `d`.
pub open spec fn spec_parse_file_header(d: Seq<u8>, i: int) -> ImageFileHeader
    recommends
        0 <= i,
        i + FILE_HEADER_SIZE as int <= d.len(),
{
    ImageFileHeader {
        machine: le16_at(d, i),
        number_of_sections: le16_at(d, i + 2),
        time_date_stamp: le32_at(d, i + 4),
        pointer_to_symbol_table: le32_at(d, i + 8),
        number_of_symbols: le32_at(d, i + 12),
        size_of_optional_header: le16_at(d, i + 16),
        characteristics: le16_at(d, i + 18),
    }
}

/// The exact 20-byte on-disk image of a file header.
pub open spec fn spec_file_header_bytes(h: ImageFileHeader) -> Seq<u8> {
    seq![
        lo16(h.machine),
        hi16(h.machine),
        lo16(h.number_of_sections),
        hi16(h.number_of_sections),
        byte0(h.time_date_stamp),
        byte1(h.time_date_stamp),
        byte2(h.time_date_stamp),
        byte3(h.time_date_stamp),
        byte0(h.pointer_to_symbol_table),
        byte1(h.pointer_to_symbol_table),
        byte2(h.pointer_to_symbol_table),
        byte3(h.pointer_to_symbol_table),
        byte0(h.number_of_symbols),
        byte1(h.number_of_symbols),
        byte2(h.number_of_symbols),
        byte3(h.number_of_symbols),
        lo16(h.size_of_optional_header),
        hi16(h.size_of_optional_header),
        lo16(h.characteristics),
        hi16(h.characteristics),
    ]
}

/// Decodes the 64-byte DOS header found at offset 0 of `d`, field by field.
pub fn parse_image_dos_header(d: &Vec<u8>) -> (h: ImageDosHeader)
    requires
        DOS_HEADER_SIZE as int <= d@.len(),
    ensures
        h.e_magic == le16_at(d@, 0),
        h.e_cblp == le16_at(d@, 2),
        h.e_cp == le16_at(d@, 4),
        h.e_crlc == le16_at(d@, 6),
        h.e_cparhdr == le16_at(d@, 8),
        h.e_minalloc == le16_at(d@, 10),
        h.e_maxalloc == le16_at(d@, 12),
        h.e_ss == le16_at(d@, 14),
        h.e_sp == le16_at(d@, 16),
        h.e_csum == le16_at(d@, 18),
        h.e_ip == le16_at(d@, 20),
        h.e_cs == le16_at(d@, 22),
        h.e_lfarlc == le16_at(d@, 24),
        h.e_ovno == le16_at(d@, 26),
        h.e_res@ == seq![le16_at(d@, 28), le16_at(d@, 30), le16_at(d@, 32), le16_at(d@, 34)],
        h.e_oemid == le16_at(d@, 36),
        h.e_oeminfo == le16_at(d@, 38),
        h.e_res2@ == seq![
            le16_at(d@, 40),
            le16_at(d@, 42),
            le16_at(d@, 44),
            le16_at(d@, 46),
            le16_at(d@, 48),
            le16_at(d@, 50),
            le16_at(d@, 52),
            le16_at(d@, 54),
            le16_at(d@, 56),
            le16_at(d@, 58),
        ],
        h.e_lfanew == le32_at(d@, 60) as i32,
{
    let e_res: [u16; 4] = [read_le16(d, 28), read_le16(d, 30), read_le16(d, 32), read_le16(d, 34)];
    let e_res2: [u16; 10] = [
        read_le16(d, 40),
        read_le16(d, 42),
        read_le16(d, 44),
        read_le16(d, 46),
        read_le16(d, 48),
        read_le16(d, 50),
        read_le16(d, 52),
        read_le16(d, 54),
        read_le16(d, 56),
        read_le16(d, 58),
    ];
    let lfanew_raw: u32 = read_le32(d, 60);
    let h = ImageDosHeader {
        e_magic: read_le16(d, 0),
        e_cblp: read_le16(d, 2),
        e_cp: read_le16(d, 4),
        e_crlc: read_le16(d, 6),
        e_cparhdr: read_le16(d, 8),
        e_minalloc: read_le16(d, 10),
        e_maxalloc: read_le16(d, 12),
        e_ss: read_le16(d, 14),
        e_sp: read_le16(d, 16),
        e_csum: read_le16(d, 18),
        e_ip: read_le16(d, 20),
        e_cs: read_le16(d, 22),
        e_lfarlc: read_le16(d, 24),
        e_ovno: read_le16(d, 26),
        e_res,
        e_oemid: read_le16(d, 36),
        e_oeminfo: read_le16(d, 38),
        e_res2,
        e_lfanew: #[verifier::truncate] (lfanew_raw as i32),
    };
    proof {
        assert(h.e_res@ =~= seq![le16_at(d@, 28), le16_at(d@, 30), le16_at(d@, 32), le16_at(d@, 34)]);
        assert(h.e_res2@ =~= seq![
            le16_at(d@, 40),
            le16_at(d@, 42),
            le16_at(d@, 44),
            le16_at(d@, 46),
            le16_at(d@, 48),
            le16_at(d@, 50),
            le16_at(d@, 52),
            le16_at(d@, 54),
            le16_at(d@, 56),
            le16_at(d@, 58),
        ]);
    }
    h
}

/// Decodes the 20-byte file header found at byte offset `pos` of `d`.
pub fn parse_image_file_header_at(d: &Vec<u8>, pos: usize) -> (h: ImageFileHeader)
    requires
        pos + FILE_HEADER_SIZE <= d@.len(),
    ensures
        h == spec_parse_file_header(d@, pos as int),
{
    let n: usize = d.len();
    assert(pos + FILE_HEADER_SIZE <= n);
    ImageFileHeader {
        machine: read_le16(d, pos),
        number_of_sections: read_le16(d, pos + 2),
        time_date_stamp: read_le32(d, pos + 4),
        pointer_to_symbol_table: read_le32(d, pos + 8),
        number_of_symbols: read_le32(d, pos + 12),
        size_of_optional_header: read_le16(d, pos + 16),
        characteristics: read_le16(d, pos + 18),
    }
}

/// Encodes a file header into its exact 20-byte on-disk image.
pub fn encode_image_file_header(h: &ImageFileHeader) -> (r: Vec<u8>)
    ensures
        r@ == spec_file_header_bytes(*h),
{
    let mut r: Vec<u8> = Vec::new();
    r.push(le16_lo(h.machine));
    r.push(le16_hi(h.machine));
    r.push(le16_lo(h.number_of_sections));
    r.push(le16_hi(h.number_of_sections));
    r.push(le32_b0(h.time_date_stamp));
    r.push(le32_b1(h.time_date_stamp));
    r.push(le32_b2(h.time_date_stamp));
    r.push(le32_b3(h.time_date_stamp));
    r.push(le32_b0(h.pointer_to_symbol_table));
    r.push(le32_b1(h.pointer_to_symbol_table));
    r.push(le32_b2(h.pointer_to_symbol_table));
    r.push(le32_b3(h.pointer_to_symbol_table));
    r.push(le32_b0(h.number_of_symbols));
    r.push(le32_b1(h.number_of_symbols));
    r.push(le32_b2(h.number_of_symbols));
    r.push(le32_b3(h.number_of_symbols));
    r.push(le16_lo(h.size_of_optional_header));
    r.push(le16_hi(h.size_of_optional_header));
    r.push(le16_lo(h.characteristics));
    r.push(le16_hi(h.characteristics));
    proof {
        assert(r@ =~= spec_file_header_bytes(*h));
    }
    r
}

/// Splitting a 16-bit value into its two little-endian bytes and joining
/// them again is the identity.
pub proof fn lemma_le16_join(x: u16)
    ensures
        le16(lo16(x), hi16(x)) == x,
{
    assert(((((x & 0xff) as u8) as u16) | (((((x >> 8) & 0xff) as u8) as u16) << 8)) == x)
        by (bit_vector);
}

/// Joining two bytes into a 16-bit little-endian value and splitting it
/// again gives the bytes back.
pub proof fn lemma_le16_split(b0: u8, b1: u8)
    ensures
        lo16(le16(b0, b1)) == b0,
        hi16(le16(b0, b1)) == b1,
{
    assert(((((b0 as u16) | ((b1 as u16) << 8)) & 0xff) as u8) == b0) by (bit_vector);
    assert((((((b0 as u16) | ((b1 as u16) << 8)) >> 8) & 0xff) as u8) == b1) by (bit_vector);
}

/// Splitting a 32-bit value into its four little-endian bytes and joining
/// them again is the identity.
pub proof fn lemma_le32_join(x: u32)
    ensures
        le32(byte0(x), byte1(x), byte2(x), byte3(x)) == x,
{
    assert(((((x & 0xff) as u8) as u32) | ((((x >> 8) & 0xff) as u8) as u32) << 8 | ((((x >> 16)
        & 0xff) as u8) as u32) << 16 | ((((x >> 24) & 0xff) as u8) as u32) << 24) == x)
        by (bit_vector);
}

/// Joining four bytes into a 32-bit little-endian value and splitting it
/// again gives the bytes back.
pub proof fn lemma_le32_split(b0: u8, b1: u8, b2: u8, b3: u8)
    ensures
        byte0(le32(b0, b1, b2, b3)) == b0,
        byte1(le32(b0, b1, b2, b3)) == b1,
        byte2(le32(b0, b1, b2, b3)) == b2,
        byte3(le32(b0, b1, b2, b3)) == b3,
{
    assert(((((b0 as u32) | ((b1 as u32) << 8) | ((b2 as u32) << 16) | ((b3 as u32) << 24))
        & 0xff) as u8) == b0) by (bit_vector);
    assert((((((b0 as u32) | ((b1 as u32) << 8) | ((b2 as u32) << 16) | ((b3 as u32) << 24))
        >> 8) & 0xff) as u8) == b1) by (bit_vector);
    assert((((((b0 as u32) | ((b1 as u32) << 8) | ((b2 as u32) << 16) | ((b3 as u32) << 24))
        >> 16) & 0xff) as u8) == b2) by (bit_vector);
    assert((((((b0 as u32) | ((b1 as u32) << 8) | ((b2 as u32) << 16) | ((b3 as u32) << 24))
        >> 24) & 0xff) as u8) == b3) by (bit_vector);
}

/// Round trip: decoding a 20-byte file header image and re-encoding it
/// reproduces the original bytes exactly, with no field reordered and no
/// padding introduced.
pub proof fn lemma_file_header_encode_parse(d: Seq<u8>, i: int)
    requires
        0 <= i,
        i + FILE_HEADER_SIZE as int <= d.len(),
    ensures
        spec_file_header_bytes(spec_parse_file_header(d, i)) == d.subrange(
            i,
            i + FILE_HEADER_SIZE as int,
        ),
{
    lemma_le16_split(d[i], d[i + 1]);
    lemma_le16_split(d[i + 2], d[i + 3]);
    lemma_le32_split(d[i + 4], d[i + 5], d[i + 6], d[i + 7]);
    lemma_le32_split(d[i + 8], d[i + 9], d[i + 10], d[i + 11]);
    lemma_le32_split(d[i + 12], d[i + 13], d[i + 14], d[i + 15]);
    lemma_le16_split(d[i + 16], d[i + 17]);
    lemma_le16_split(d[i + 18], d[i + 19]);
    assert(spec_file_header_bytes(spec_parse_file_header(d, i)) =~= d.subrange(
        i,
        i + FILE_HEADER_SIZE as int,
    ));
}

/// Round trip: encoding a file header and decoding the image gives the
/// header back.
pub proof fn lemma_file_header_parse_encode(h: ImageFileHeader)
    ensures
        spec_parse_file_header(spec_file_header_bytes(h), 0) == h,
{
    lemma_le16_join(h.machine);
    lemma_le16_join(h.number_of_sections);
    lemma_le32_join(h.time_date_stamp);
    lemma_le32_join(h.pointer_to_symbol_table);
    lemma_le32_join(h.number_of_symbols);
    lemma_le16_join(h.size_of_optional_header);
    lemma_le16_join(h.characteristics);
}

} // verus!
