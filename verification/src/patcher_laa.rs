//! Locating the primary header of an executable image, setting its
//! large-address-aware flag, and classifying the build variant of the image
//! before patching it.
//!
//! All functions work on the in-memory byte image of the target file.  The
//! caller reads the file, hands the bytes in, and writes the patched bytes
//! back after taking the mandated backup copy.

use vstd::prelude::*;

use crate::digest::{
    contains_digest, hex_encode, hex_str, list_contains, sha256, sha256_of, ReferenceSets,
};
use crate::pe::{
    encode_image_file_header, le16, le16_at, le32, le32_at, lemma_file_header_encode_parse,
    lemma_file_header_parse_encode, lemma_le16_join, parse_image_dos_header,
    parse_image_file_header_at, spec_file_header_bytes, spec_parse_file_header, ImageFileHeader,
    DOS_HEADER_SIZE, FILE_HEADER_SIZE, IMAGE_DOS_SIGNATURE, IMAGE_FILE_LARGE_ADDRESS_AWARE,
    IMAGE_NT_SIGNATURE,
};

verus! {

/// The ways a byte image can fail to be a well-formed container: it is too
/// short for a required record, or one of the two mandatory signatures does
/// not match.
#[derive(Debug, Clone, Copy, PartialEq, Eq, Structural)]
pub enum FormatError {
    /// The image is too short to hold a record that had to be read.
    Truncated,
    /// The leading two bytes are not the "MZ" signature.
    InvalidCompatibilityMagic,
    /// The four bytes at the embedded offset are not the "PE\0\0" signature.
    InvalidPrimaryMagic,
}

/// The known build variants of the target executable, plus the two
/// fallback classifications.
#[derive(Debug, Clone, Copy, PartialEq, Eq, Structural)]
pub enum GameVersion {
    Steam,
    Steamless,
    Gog,
    AlreadyPatched,
    Unknown,
}

/// The image is at least 64 bytes long and starts with the "MZ" signature.
pub open spec fn dos_sig_ok(d: Seq<u8>) -> bool {
    d.len() >= DOS_HEADER_SIZE as int && le16_at(d, 0) == IMAGE_DOS_SIGNATURE
}

/// The offset to the primary signature, embedded at byte 60 of the DOS
/// header.
pub open spec fn pe_off(d: Seq<u8>) -> int
    recommends
        d.len() >= DOS_HEADER_SIZE as int,
{
    le32_at(d, 60) as int
}

/// The embedded offset is non-negative as a signed value and the four
/// signature bytes it points at lie inside the image.
pub open spec fn pe_off_ok(d: Seq<u8>) -> bool {
    &&& dos_sig_ok(d)
    &&& le32_at(d, 60) < 0x8000_0000u32
    &&& pe_off(d) + 4 <= d.len()
}

/// Both mandatory signature checks pass: "MZ" at offset 0 and "PE\0\0" at
/// the embedded offset.
pub open spec fn pe_sig_ok(d: Seq<u8>) -> bool {
    pe_off_ok(d) && le32_at(d, pe_off(d)) == IMAGE_NT_SIGNATURE
}

/// The byte position of the primary header: the first byte after the
/// 4-byte primary signature.
pub open spec fn header_pos(d: Seq<u8>) -> int
    recommends
        d.len() >= DOS_HEADER_SIZE as int,
{
    pe_off(d) + 4
}

/// The image passes both signature checks and is long enough to hold the
/// whole primary header.
pub open spec fn pe_valid(d: Seq<u8>) -> bool {
    pe_sig_ok(d) && header_pos(d) + FILE_HEADER_SIZE as int <= d.len()
}

/// The primary header of a valid image.
pub open spec fn spec_file_header_of(d: Seq<u8>) -> ImageFileHeader
    recommends
        pe_valid(d),
{
    spec_parse_file_header(d, header_pos(d))
}

/// Whether the large-address-aware bit is set in a valid image.
pub open spec fn laa_set(d: Seq<u8>) -> bool
    recommends
        pe_valid(d),
{
    spec_file_header_of(d).characteristics & IMAGE_FILE_LARGE_ADDRESS_AWARE != 0
}

/// The primary header with the large-address-aware bit set.
pub open spec fn patched_header(d: Seq<u8>) -> ImageFileHeader
    recommends
        pe_valid(d),
{
    let h = spec_file_header_of(d);
    ImageFileHeader {
        machine: h.machine,
        number_of_sections: h.number_of_sections,
        time_date_stamp: h.time_date_stamp,
        pointer_to_symbol_table: h.pointer_to_symbol_table,
        number_of_symbols: h.number_of_symbols,
        size_of_optional_header: h.size_of_optional_header,
        characteristics: h.characteristics | IMAGE_FILE_LARGE_ADDRESS_AWARE,
    }
}

/// `d` with the bytes at `p ..= p + b.len() - 1` replaced by `b`: the same
/// byte width written back at the same offset, no resizing.
pub open spec fn splice_bytes(d: Seq<u8>, p: int, b: Seq<u8>) -> Seq<u8>
    recommends
        0 <= p,
        p + b.len() <= d.len(),
{
    d.subrange(0, p) + b + d.subrange(p + b.len(), d.len() as int)
}

/// The whole image after the patch: the primary header re-encoded in place
/// with the large-address-aware bit set.
pub open spec fn laa_applied(d: Seq<u8>) -> Seq<u8>
    recommends
        pe_valid(d),
{
    splice_bytes(d, header_pos(d), spec_file_header_bytes(patched_header(d)))
}

/// The error an invalid image is rejected with, following the order of the
/// checks: length of the DOS header, its signature, reach of the embedded
/// offset, the primary signature, then room for the primary header.
pub open spec fn format_failure(d: Seq<u8>) -> FormatError
    recommends
        !pe_valid(d),
{
    if d.len() < DOS_HEADER_SIZE as int {
        FormatError::Truncated
    } else if le16_at(d, 0) != IMAGE_DOS_SIGNATURE {
        FormatError::InvalidCompatibilityMagic
    } else if !(le32_at(d, 60) < 0x8000_0000u32 && pe_off(d) + 4 <= d.len()) {
        FormatError::Truncated
    } else if le32_at(d, pe_off(d)) != IMAGE_NT_SIGNATURE {
        FormatError::InvalidPrimaryMagic
    } else {
        FormatError::Truncated
    }
}

proof fn lemma_sig_bytes(b0: u8, b1: u8, b2: u8, b3: u8)
    requires
        le32(b0, b1, b2, b3) == IMAGE_NT_SIGNATURE,
    ensures
        b0 == 0x50 && b1 == 0x45 && b2 == 0 && b3 == 0,
{
    assert((((b0 as u32) | ((b1 as u32) << 8) | ((b2 as u32) << 16) | ((b3 as u32) << 24))
        == 0x00004550u32) ==> (b0 == 0x50 && b1 == 0x45 && b2 == 0 && b3 == 0)) by (bit_vector);
}

/// Wherever the two signature checks pass, the four bytes right before the
/// returned cursor are exactly the primary signature 0x50, 0x45, 0x00,
/// 0x00 ("PE\0\0").
pub proof fn lemma_primary_signature_bytes(d: Seq<u8>)
    requires
        pe_sig_ok(d),
    ensures
        4 <= header_pos(d) <= d.len(),
        d.subrange(header_pos(d) - 4, header_pos(d)) == seq![0x50u8, 0x45u8, 0u8, 0u8],
{
    let q = pe_off(d);
    lemma_sig_bytes(d[q], d[q + 1], d[q + 2], d[q + 3]);
    assert(d.subrange(header_pos(d) - 4, header_pos(d)) =~= seq![0x50u8, 0x45u8, 0u8, 0u8]);
}

/// How a splice reads back, byte by byte.
proof fn lemma_splice_index(d: Seq<u8>, p: int, b: Seq<u8>)
    requires
        0 <= p,
        p + b.len() <= d.len(),
    ensures
        splice_bytes(d, p, b).len() == d.len(),
        forall|j: int| 0 <= j < p ==> splice_bytes(d, p, b)[j] == d[j],
        forall|j: int| p <= j < p + b.len() ==> splice_bytes(d, p, b)[j] == b[j - p],
        forall|j: int| p + b.len() <= j < d.len() ==> splice_bytes(d, p, b)[j] == d[j],
{
    let s = splice_bytes(d, p, b);
    assert forall|j: int| 0 <= j < p implies s[j] == d[j] by {
        assert(s[j] == d.subrange(0, p)[j]);
    }
    assert forall|j: int| p + b.len() <= j < d.len() implies s[j] == d[j] by {
        assert(s[j] == d.subrange(p + b.len(), d.len() as int)[j - p - b.len()]);
    }
}

/// Round trip at the image level: reading the primary header of a valid
/// image, setting no bits, and writing it back at the same offset
/// reproduces the whole image byte for byte.
pub proof fn lemma_write_back_unchanged(d: Seq<u8>)
    requires
        pe_valid(d),
    ensures
        splice_bytes(d, header_pos(d), spec_file_header_bytes(spec_file_header_of(d))) == d,
{
    let p = header_pos(d);
    let enc = spec_file_header_bytes(spec_file_header_of(d));
    lemma_file_header_encode_parse(d, p);
    lemma_splice_index(d, p, enc);
    assert forall|j: int|
        0 <= j < d.len() implies splice_bytes(d, p, enc)[j] == d[j] by {
        if p <= j < p + 20 {
            assert(splice_bytes(d, p, enc)[j] == enc[j - p]);
            assert(enc[j - p] == d.subrange(p, p + 20)[j - p]);
        }
    }
    assert(splice_bytes(d, p, enc) =~= d);
}

/// What the patch does to the bytes of a valid image: the length is kept,
/// every byte outside the two characteristics bytes is kept, and the
/// characteristics value gains exactly the large-address-aware bit.
pub proof fn lemma_laa_applied_bytes(d: Seq<u8>)
    requires
        pe_valid(d),
    ensures
        laa_applied(d).len() == d.len(),
        forall|j: int|
            0 <= j < d.len() && j != header_pos(d) + 18 && j != header_pos(d) + 19
                ==> laa_applied(d)[j] == d[j],
        le16_at(laa_applied(d), header_pos(d) + 18) == (le16_at(d, header_pos(d) + 18)
            | IMAGE_FILE_LARGE_ADDRESS_AWARE),
{
    let p = header_pos(d);
    let h = spec_file_header_of(d);
    let h2 = patched_header(d);
    let enc2 = spec_file_header_bytes(h2);
    let d1 = laa_applied(d);
    lemma_file_header_encode_parse(d, p);
    lemma_splice_index(d, p, enc2);
    assert forall|j: int| 0 <= j < d.len() && j != p + 18 && j != p + 19 implies d1[j] == d[j] by {
        if p <= j < p + 20 {
            assert(d1[j] == enc2[j - p]);
            assert(spec_file_header_bytes(h)[j - p] == d.subrange(p, p + 20)[j - p]);
            assert(enc2[j - p] == spec_file_header_bytes(h)[j - p]);
        }
    }
    assert(d1[p + 18] == enc2[18]);
    assert(d1[p + 19] == enc2[19]);
    lemma_le16_join(h2.characteristics);
    assert(le16_at(d1, p + 18) == le16(crate::pe::lo16(h2.characteristics), crate::pe::hi16(
        h2.characteristics,
    )));
}

/// Setting the large-address-aware bit keeps the image a valid container
/// with the same header position, provided the two characteristics bytes
/// do not overlap the stored offset field of the DOS header (bytes 60 to
/// 63), which holds of every image whose primary header lies past the DOS
/// header.
pub proof fn lemma_laa_preserves_layout(d: Seq<u8>)
    requires
        pe_valid(d),
        header_pos(d) + 18 >= DOS_HEADER_SIZE as int || header_pos(d) + 20 <= 60,
    ensures
        pe_valid(laa_applied(d)),
        header_pos(laa_applied(d)) == header_pos(d),
        spec_file_header_of(laa_applied(d)) == patched_header(d),
        laa_set(laa_applied(d)),
{
    let p = header_pos(d);
    let h2 = patched_header(d);
    let enc2 = spec_file_header_bytes(h2);
    let d1 = laa_applied(d);
    lemma_laa_applied_bytes(d);
    assert(le16_at(d1, 0) == le16_at(d, 0));
    assert(le32_at(d1, 60) == le32_at(d, 60));
    assert(pe_off(d1) == pe_off(d));
    assert(le32_at(d1, pe_off(d)) == le32_at(d, pe_off(d)));
    lemma_splice_index(d, p, enc2);
    assert(d1.subrange(p, p + 20) =~= enc2);
    lemma_file_header_parse_encode(h2);
    assert(spec_parse_file_header(d1, p) == spec_parse_file_header(enc2, 0));
    let c = spec_file_header_of(d).characteristics;
    assert(((c | 0x20) & 0x20) != 0) by (bit_vector);
}

/// Idempotence: applying the patch to an already patched image reproduces
/// that image byte for byte; the flag, once set, is unaffected by a second
/// set.
pub proof fn lemma_laa_idempotent(d: Seq<u8>)
    requires
        pe_valid(d),
        header_pos(d) + 18 >= DOS_HEADER_SIZE as int || header_pos(d) + 20 <= 60,
    ensures
        laa_applied(laa_applied(d)) == laa_applied(d),
{
    let p = header_pos(d);
    let h2 = patched_header(d);
    let enc2 = spec_file_header_bytes(h2);
    let d1 = laa_applied(d);
    lemma_laa_preserves_layout(d);
    let c = spec_file_header_of(d).characteristics;
    assert(((c | 0x20) | 0x20) == (c | 0x20)) by (bit_vector);
    assert(patched_header(d1) == h2);
    lemma_splice_index(d, p, enc2);
    lemma_splice_index(d1, p, enc2);
    assert(laa_applied(d1) =~= d1);
}

proof fn lemma_lfanew_sign(u: u32)
    ensures
        ((u as i32) < 0) <==> (u >= 0x8000_0000u32),
        u < 0x8000_0000u32 ==> ((u as i32) as u32) == u && (u as i32) >= 0,
{
    assert(((u as i32) < 0) == (u >= 0x8000_0000u32)) by (bit_vector);
    assert(u < 0x8000_0000u32 ==> ((u as i32) as u32) == u && (u as i32) >= 0) by (bit_vector);
}

/// Validates the signature of the compatibility header at offset 0,
/// follows the embedded offset, validates the primary signature there, and
/// returns the position of the first byte after it: the start of the
/// primary header.
pub fn locate_primary_header(data: &Vec<u8>) -> (r: Result<usize, FormatError>)
    ensures
        pe_sig_ok(data@) ==> r == Ok::<usize, FormatError>(header_pos(data@) as usize),
        !pe_sig_ok(data@) ==> r == Err::<usize, FormatError>(format_failure(data@)),
{
    let n: usize = data.len();
    if n < DOS_HEADER_SIZE {
        return Err(FormatError::Truncated);
    }
    let dos = parse_image_dos_header(data);
    if dos.e_magic != IMAGE_DOS_SIGNATURE {
        return Err(FormatError::InvalidCompatibilityMagic);
    }
    proof {
        lemma_lfanew_sign(le32_at(data@, 60));
    }
    let lfanew: i32 = dos.e_lfanew;
    if lfanew < 0 {
        return Err(FormatError::Truncated);
    }
    let off: usize = lfanew as usize;
    if off + 4 > n {
        return Err(FormatError::Truncated);
    }
    let sig: u32 = crate::pe::read_le32(data, off);
    if sig != IMAGE_NT_SIGNATURE {
        return Err(FormatError::InvalidPrimaryMagic);
    }
    Ok(off + 4)
}

/// Locates the primary header and decodes it.
pub fn read_image_file_header(data: &Vec<u8>) -> (r: Result<ImageFileHeader, FormatError>)
    ensures
        pe_valid(data@) ==> r == Ok::<ImageFileHeader, FormatError>(spec_file_header_of(data@)),
        !pe_valid(data@) ==> r == Err::<ImageFileHeader, FormatError>(format_failure(data@)),
{
    let pos: usize = match locate_primary_header(data) {
        Ok(p) => p,
        Err(e) => {
            return Err(e);
        },
    };
    let n: usize = data.len();
    if n - pos < FILE_HEADER_SIZE {
        return Err(FormatError::Truncated);
    }
    Ok(parse_image_file_header_at(data, pos))
}

/// Locates the primary header and writes `header` back over it, encoded to
/// the exact same 20-byte width it was read with.
pub fn write_image_file_header(data: &mut Vec<u8>, header: &ImageFileHeader) -> (r: Result<
    (),
    FormatError,
>)
    ensures
        pe_valid(old(data)@) ==> r == Ok::<(), FormatError>(()) && final(data)@ == splice_bytes(
            old(data)@,
            header_pos(old(data)@),
            spec_file_header_bytes(*header),
        ),
        !pe_valid(old(data)@) ==> r == Err::<(), FormatError>(format_failure(old(data)@))
            && final(data)@ == old(data)@,
{
    let pos: usize = match locate_primary_header(data) {
        Ok(p) => p,
        Err(e) => {
            return Err(e);
        },
    };
    let n: usize = data.len();
    if n - pos < FILE_HEADER_SIZE {
        return Err(FormatError::Truncated);
    }
    let enc: Vec<u8> = encode_image_file_header(header);
    let mut k: usize = 0;
    while k < FILE_HEADER_SIZE
        invariant
            k <= FILE_HEADER_SIZE,
            enc@ == spec_file_header_bytes(*header),
            enc@.len() == FILE_HEADER_SIZE as int,
            n == data@.len(),
            pos + FILE_HEADER_SIZE <= n,
            data@.len() == old(data)@.len(),
            forall|m: int|
                0 <= m < data@.len() && !(pos <= m < pos + k) ==> data@[m] == old(data)@[m],
            forall|m: int| 0 <= m < k ==> data@[pos + m] == enc@[m],
        decreases FILE_HEADER_SIZE - k,
    {
        data[pos + k] = enc[k];
        k += 1;
    }
    proof {
        assert(data@ =~= splice_bytes(
            old(data)@,
            header_pos(old(data)@),
            spec_file_header_bytes(*header),
        ));
    }
    Ok(())
}

/// Reads the primary header, sets the large-address-aware bit in its
/// characteristics bitmask, and writes the header back at the same offset.
pub fn make_laa(data: &mut Vec<u8>) -> (r: Result<(), FormatError>)
    ensures
        pe_valid(old(data)@) ==> r == Ok::<(), FormatError>(()) && final(data)@ == laa_applied(
            old(data)@,
        ),
        !pe_valid(old(data)@) ==> r == Err::<(), FormatError>(format_failure(old(data)@))
            && final(data)@ == old(data)@,
{
    let mut header: ImageFileHeader = match read_image_file_header(data) {
        Ok(h) => h,
        Err(e) => {
            return Err(e);
        },
    };
    header.characteristics = header.characteristics | IMAGE_FILE_LARGE_ADDRESS_AWARE;
    proof {
        assert(header == patched_header(data@));
    }
    match write_image_file_header(data, &header) {
        Ok(()) => Ok(()),
        Err(e) => Err(e),
    }
}

/// Reports whether the large-address-aware bit is already set.
pub fn is_laa(data: &Vec<u8>) -> (r: Result<bool, FormatError>)
    ensures
        pe_valid(data@) ==> r == Ok::<bool, FormatError>(laa_set(data@)),
        !pe_valid(data@) ==> r == Err::<bool, FormatError>(format_failure(data@)),
{
    let header: ImageFileHeader = match read_image_file_header(data) {
        Ok(h) => h,
        Err(e) => {
            return Err(e);
        },
    };
    Ok(header.characteristics & IMAGE_FILE_LARGE_ADDRESS_AWARE != 0)
}

/// The classification of an image against the three reference sets, in
/// their fixed priority order, with the capability-bit fallback.
pub open spec fn spec_detect_version(
    d: Seq<u8>,
    steam: Seq<Seq<u8>>,
    steamless: Seq<Seq<u8>>,
    gog: Seq<Seq<u8>>,
) -> Result<GameVersion, FormatError> {
    let h = sha256_of(d);
    if contains_digest(steam, h) {
        Ok(GameVersion::Steam)
    } else if contains_digest(steamless, h) {
        Ok(GameVersion::Steamless)
    } else if contains_digest(gog, h) {
        Ok(GameVersion::Gog)
    } else if !pe_valid(d) {
        Err(format_failure(d))
    } else if laa_set(d) {
        Ok(GameVersion::AlreadyPatched)
    } else {
        Ok(GameVersion::Unknown)
    }
}

/// Computes the whole-image digest and matches it against the three
/// reference sets; when none matches, falls back to the capability-bit
/// check.
pub fn detect_version(data: &Vec<u8>, refs: &ReferenceSets) -> (r: Result<GameVersion, FormatError>)
    ensures
        r == spec_detect_version(
            data@,
            refs.steam.deep_view(),
            refs.steamless.deep_view(),
            refs.gog.deep_view(),
        ),
{
    let hash: Vec<u8> = sha256(data);
    if list_contains(&refs.steam, &hash) {
        Ok(GameVersion::Steam)
    } else if list_contains(&refs.steamless, &hash) {
        Ok(GameVersion::Steamless)
    } else if list_contains(&refs.gog, &hash) {
        Ok(GameVersion::Gog)
    } else {
        match is_laa(data) {
            Ok(true) => Ok(GameVersion::AlreadyPatched),
            Ok(false) => Ok(GameVersion::Unknown),
            Err(e) => Err(e),
        }
    }
}

impl GameVersion {
    /// The display name of the classification.
    pub fn name(&self) -> (r: &'static str)
        ensures
            *self == GameVersion::Steam ==> r@ == "Steam"@,
            *self == GameVersion::Steamless ==> r@ == "Steamless"@,
            *self == GameVersion::Gog ==> r@ == "GOG"@,
            *self == GameVersion::AlreadyPatched ==> r@ == "Already Patched"@,
            *self == GameVersion::Unknown ==> r@ == "Unknown"@,
    {
        match self {
            GameVersion::Steam => "Steam",
            GameVersion::Steamless => "Steamless",
            GameVersion::Gog => "GOG",
            GameVersion::AlreadyPatched => "Already Patched",
            GameVersion::Unknown => "Unknown",
        }
    }
}

/// Failure of the patch operation.
#[derive(Debug)]
pub enum PatchError {
    /// The image is not a well-formed container.
    Format(FormatError),
    /// The protected variant was found and the explicit override was not
    /// given.
    UnsafeVariantBlocked,
    /// The digest matched no reference set and the capability bit is not
    /// set; carries the digest in hexadecimal so the operator can report
    /// the new variant.
    UnknownVariant { digest_hex: String },
}

/// What the caller must do to complete a patch: first copy the whole file
/// to a backup named with `backup_extension`, then write `patched` over
/// the file.  Both are `None` when the image is already patched and
/// nothing is to be written.
#[derive(Debug)]
pub struct PatchPlan {
    /// The classification the plan was made for.
    pub version: GameVersion,
    /// Suffix of the mandatory backup copy, distinct per variant.
    pub backup_extension: Option<&'static str>,
    /// The whole image after the patch, to be written back verbatim.
    pub patched: Option<Vec<u8>>,
    /// The outcome line to show the operator.
    pub message: &'static str,
}

/// A plan that backs up with `ext` and writes the patched image.
pub open spec fn plan_patches(
    p: PatchPlan,
    d: Seq<u8>,
    v: GameVersion,
    ext: Seq<char>,
    msg: Seq<char>,
) -> bool {
    &&& p.version == v
    &&& (p.backup_extension matches Some(e) && e@ == ext)
    &&& (p.patched matches Some(nd) && nd@ == laa_applied(d))
    &&& p.message@ == msg
}

fn copy_bytes(v: &Vec<u8>) -> (r: Vec<u8>)
    ensures
        r@ == v@,
{
    let n: usize = v.len();
    let mut r: Vec<u8> = Vec::new();
    let mut k: usize = 0;
    while k < n
        invariant
            n == v@.len(),
            k <= n,
            r@ == v@.subrange(0, k as int),
        decreases n - k,
    {
        r.push(v[k]);
        proof {
            assert(r@ =~= v@.subrange(0, k + 1 as int));
        }
        k += 1;
    }
    proof {
        assert(v@.subrange(0, v@.len() as int) =~= v@);
    }
    r
}

/// Classifies the image and decides the patch: the protected variant is
/// refused without the explicit override; the safe variants are patched
/// after a variant-specific backup; an already patched image is a no-op;
/// an unknown image is refused with its digest.
pub fn patch_exe(data: &Vec<u8>, refs: &ReferenceSets, skip_steam_drm: bool) -> (r: Result<
    PatchPlan,
    PatchError,
>)
    ensures
        ({
            let det = spec_detect_version(
                data@,
                refs.steam.deep_view(),
                refs.steamless.deep_view(),
                refs.gog.deep_view(),
            );
            &&& (det matches Err(e) ==> r matches Err(err) && err == PatchError::Format(e))
            &&& det == Ok::<GameVersion, FormatError>(GameVersion::Steam) && !skip_steam_drm ==> (r matches Err(err)
                && err is UnsafeVariantBlocked)
            &&& det == Ok::<GameVersion, FormatError>(GameVersion::Steam) && skip_steam_drm && pe_valid(data@) ==> (
            r matches Ok(p) && plan_patches(
                p,
                data@,
                GameVersion::Steam,
                "steam_backup"@,
                "Patched Steam Version (DRM intact - may not work correctly)"@,
            ))
            &&& det == Ok::<GameVersion, FormatError>(GameVersion::Steam) && skip_steam_drm && !pe_valid(data@) ==> (
            r matches Err(err) && err == PatchError::Format(format_failure(data@)))
            &&& det == Ok::<GameVersion, FormatError>(GameVersion::Steamless) && pe_valid(data@) ==> (r matches Ok(p)
                && plan_patches(
                p,
                data@,
                GameVersion::Steamless,
                "steamless_backup"@,
                "Patched Steamless Version"@,
            ))
            &&& det == Ok::<GameVersion, FormatError>(GameVersion::Steamless) && !pe_valid(data@) ==> (r matches Err(err)
                && err == PatchError::Format(format_failure(data@)))
            &&& det == Ok::<GameVersion, FormatError>(GameVersion::Gog) && pe_valid(data@) ==> (r matches Ok(p)
                && plan_patches(
                p,
                data@,
                GameVersion::Gog,
                "gog_backup"@,
                "Patched GOG Version"@,
            ))
            &&& det == Ok::<GameVersion, FormatError>(GameVersion::Gog) && !pe_valid(data@) ==> (r matches Err(err)
                && err == PatchError::Format(format_failure(data@)))
            &&& det == Ok::<GameVersion, FormatError>(GameVersion::AlreadyPatched) ==> (r matches Ok(p) && p.version
                == GameVersion::AlreadyPatched && p.backup_extension is None && p.patched is None
                && p.message@ == "Already patched"@)
            &&& det == Ok::<GameVersion, FormatError>(GameVersion::Unknown) ==> (r matches Err(err) && (err matches
            PatchError::UnknownVariant { digest_hex } && digest_hex@ == hex_str(
                sha256_of(data@),
            )))
        }),
{
    let version: GameVersion = match detect_version(data, refs) {
        Ok(v) => v,
        Err(e) => {
            return Err(PatchError::Format(e));
        },
    };
    match version {
        GameVersion::Steam => {
            if skip_steam_drm {
                let mut patched: Vec<u8> = copy_bytes(data);
                match make_laa(&mut patched) {
                    Ok(()) => Ok(
                        PatchPlan {
                            version: GameVersion::Steam,
                            backup_extension: Some("steam_backup"),
                            patched: Some(patched),
                            message: "Patched Steam Version (DRM intact - may not work correctly)",
                        },
                    ),
                    Err(e) => Err(PatchError::Format(e)),
                }
            } else {
                Err(PatchError::UnsafeVariantBlocked)
            }
        },
        GameVersion::Steamless => {
            let mut patched: Vec<u8> = copy_bytes(data);
            match make_laa(&mut patched) {
                Ok(()) => Ok(
                    PatchPlan {
                        version: GameVersion::Steamless,
                        backup_extension: Some("steamless_backup"),
                        patched: Some(patched),
                        message: "Patched Steamless Version",
                    },
                ),
                Err(e) => Err(PatchError::Format(e)),
            }
        },
        GameVersion::Gog => {
            let mut patched: Vec<u8> = copy_bytes(data);
            match make_laa(&mut patched) {
                Ok(()) => Ok(
                    PatchPlan {
                        version: GameVersion::Gog,
                        backup_extension: Some("gog_backup"),
                        patched: Some(patched),
                        message: "Patched GOG Version",
                    },
                ),
                Err(e) => Err(PatchError::Format(e)),
            }
        },
        GameVersion::AlreadyPatched => Ok(
            PatchPlan {
                version: GameVersion::AlreadyPatched,
                backup_extension: None,
                patched: None,
                message: "Already patched",
            },
        ),
        GameVersion::Unknown => {
            let hash: Vec<u8> = sha256(data);
            let digest_hex: String = hex_encode(&hash);
            Err(PatchError::UnknownVariant { digest_hex })
        },
    }
}

} // verus!

