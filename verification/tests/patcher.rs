use bb_patcher::digest::{get_hash_set_from_str, ReferenceSets};
use bb_patcher::patcher_laa::{
    detect_version, is_laa, locate_primary_header, make_laa, patch_exe, read_image_file_header,
    write_image_file_header, FormatError, GameVersion, PatchError,
};
use bb_patcher::pe::encode_image_file_header;
use sha2::Digest;

const LFANEW: usize = 0x80;

/// A minimal well-formed PE image: DOS header with "MZ" and an offset of
/// 0x80, the "PE\0\0" signature there, then a 20-byte file header.
fn fake_pe(characteristics: u16) -> Vec<u8> {
    let mut d = vec![0u8; LFANEW + 4 + 20 + 7];
    d[0] = 0x4D;
    d[1] = 0x5A;
    d[60..64].copy_from_slice(&(LFANEW as u32).to_le_bytes());
    d[LFANEW..LFANEW + 4].copy_from_slice(&[0x50, 0x45, 0x00, 0x00]);
    let h = LFANEW + 4;
    d[h..h + 2].copy_from_slice(&0x014Cu16.to_le_bytes()); // machine
    d[h + 2..h + 4].copy_from_slice(&3u16.to_le_bytes()); // sections
    d[h + 4..h + 8].copy_from_slice(&0x1234_5678u32.to_le_bytes()); // timestamp
    d[h + 8..h + 12].copy_from_slice(&0xDEAD_BEEFu32.to_le_bytes()); // symbol table
    d[h + 12..h + 16].copy_from_slice(&7u32.to_le_bytes()); // symbol count
    d[h + 16..h + 18].copy_from_slice(&0x00E0u16.to_le_bytes()); // optional header size
    d[h + 18..h + 20].copy_from_slice(&characteristics.to_le_bytes());
    d
}

fn empty_refs() -> ReferenceSets {
    ReferenceSets::from_texts("", "", "").unwrap()
}

fn sha_hex(data: &[u8]) -> String {
    const_hex::encode(sha2::Sha256::digest(data))
}

#[test]
fn locate_returns_cursor_after_signature() {
    let d = fake_pe(0);
    let pos = locate_primary_header(&d).unwrap();
    assert_eq!(pos, LFANEW + 4);
    assert_eq!(&d[pos - 4..pos], &[0x50, 0x45, 0x00, 0x00]);
}

#[test]
fn locate_fails_on_short_file() {
    let d = vec![0x4Du8, 0x5A, 0, 0, 0, 0, 0, 0, 0, 0];
    assert_eq!(locate_primary_header(&d), Err(FormatError::Truncated));
}

#[test]
fn locate_fails_on_bad_dos_magic() {
    let mut d = fake_pe(0);
    d[0] = 0x00;
    assert_eq!(
        locate_primary_header(&d),
        Err(FormatError::InvalidCompatibilityMagic)
    );
}

#[test]
fn locate_fails_on_bad_primary_magic() {
    let mut d = fake_pe(0);
    d[LFANEW] = 0x51;
    assert_eq!(
        locate_primary_header(&d),
        Err(FormatError::InvalidPrimaryMagic)
    );
}

#[test]
fn locate_fails_on_negative_offset() {
    let mut d = fake_pe(0);
    d[60..64].copy_from_slice(&0xFFFF_FF00u32.to_le_bytes());
    assert_eq!(locate_primary_header(&d), Err(FormatError::Truncated));
}

#[test]
fn locate_fails_on_offset_past_end() {
    let mut d = fake_pe(0);
    d[60..64].copy_from_slice(&0x7FFF_0000u32.to_le_bytes());
    assert_eq!(locate_primary_header(&d), Err(FormatError::Truncated));
}

#[test]
fn dos_header_fields_decode_exactly() {
    let mut d = fake_pe(0);
    d[2..4].copy_from_slice(&0x0090u16.to_le_bytes()); // e_cblp
    d[26..28].copy_from_slice(&0x0001u16.to_le_bytes()); // e_ovno
    d[58..60].copy_from_slice(&0x0007u16.to_le_bytes()); // last reserved word
    let h = bb_patcher::pe::parse_image_dos_header(&d);
    assert_eq!(h.e_magic, 0x5A4D);
    assert_eq!(h.e_cblp, 0x0090);
    assert_eq!(h.e_ovno, 0x0001);
    assert_eq!(h.e_res2[9], 0x0007);
    assert_eq!(h.e_lfanew, 0x80);
}

#[test]
fn read_header_fails_when_header_truncated() {
    let mut d = fake_pe(0);
    d.truncate(LFANEW + 4 + 10);
    assert!(locate_primary_header(&d).is_ok());
    assert_eq!(read_image_file_header(&d), Err(FormatError::Truncated));
}

#[test]
fn header_fields_decode_exactly() {
    let d = fake_pe(0x0102);
    let h = read_image_file_header(&d).unwrap();
    assert_eq!(h.machine, 0x014C);
    assert_eq!(h.number_of_sections, 3);
    assert_eq!(h.time_date_stamp, 0x1234_5678);
    assert_eq!(h.pointer_to_symbol_table, 0xDEAD_BEEF);
    assert_eq!(h.number_of_symbols, 7);
    assert_eq!(h.size_of_optional_header, 0x00E0);
    assert_eq!(h.characteristics, 0x0102);
}

#[test]
fn header_round_trip_reproduces_bytes() {
    let d = fake_pe(0x2103);
    let h = read_image_file_header(&d).unwrap();
    let enc = encode_image_file_header(&h);
    assert_eq!(&enc[..], &d[LFANEW + 4..LFANEW + 4 + 20]);
    // writing the unmodified header back reproduces the whole image
    let mut copy = d.clone();
    write_image_file_header(&mut copy, &h).unwrap();
    assert_eq!(copy, d);
}

#[test]
fn make_laa_sets_only_the_flag() {
    let mut d = fake_pe(0x0102);
    let before = d.clone();
    make_laa(&mut d).unwrap();
    assert_eq!(d.len(), before.len());
    let h = read_image_file_header(&d).unwrap();
    assert_eq!(h.characteristics, 0x0122);
    for (i, (a, b)) in before.iter().zip(d.iter()).enumerate() {
        if i != LFANEW + 4 + 18 && i != LFANEW + 4 + 19 {
            assert_eq!(a, b, "byte {} changed", i);
        }
    }
    assert!(is_laa(&d).unwrap());
}

#[test]
fn make_laa_twice_is_identical_to_once() {
    let mut once = fake_pe(0x0102);
    make_laa(&mut once).unwrap();
    let mut twice = once.clone();
    make_laa(&mut twice).unwrap();
    assert_eq!(once, twice);
}

#[test]
fn is_laa_false_without_flag() {
    let d = fake_pe(0x0102);
    assert!(!is_laa(&d).unwrap());
}

#[test]
fn detect_prefers_reference_sets_in_order() {
    let d = fake_pe(0);
    let hex = sha_hex(&d);
    let refs = ReferenceSets::from_texts(&hex, &hex, &hex).unwrap();
    assert_eq!(detect_version(&d, &refs), Ok(GameVersion::Steam));
    let refs = ReferenceSets::from_texts("", &hex, &hex).unwrap();
    assert_eq!(detect_version(&d, &refs), Ok(GameVersion::Steamless));
    let refs = ReferenceSets::from_texts("", "", &hex).unwrap();
    assert_eq!(detect_version(&d, &refs), Ok(GameVersion::Gog));
}

#[test]
fn detect_already_patched_beats_unknown() {
    let d = fake_pe(0x0020);
    let refs = empty_refs();
    assert_eq!(detect_version(&d, &refs), Ok(GameVersion::AlreadyPatched));
}

#[test]
fn detect_unknown_without_flag_or_digest() {
    let d = fake_pe(0);
    let refs = empty_refs();
    assert_eq!(detect_version(&d, &refs), Ok(GameVersion::Unknown));
}

#[test]
fn detect_propagates_format_error() {
    let d = vec![0u8; 5];
    let refs = empty_refs();
    assert_eq!(detect_version(&d, &refs), Err(FormatError::Truncated));
}

#[test]
fn patch_steam_blocked_without_override() {
    let d = fake_pe(0);
    let refs = ReferenceSets::from_texts(&sha_hex(&d), "", "").unwrap();
    let r = patch_exe(&d, &refs, false);
    assert!(matches!(r, Err(PatchError::UnsafeVariantBlocked)));
}

#[test]
fn patch_steam_with_override_backs_up_and_patches() {
    let d = fake_pe(0);
    let refs = ReferenceSets::from_texts(&sha_hex(&d), "", "").unwrap();
    let plan = patch_exe(&d, &refs, true).unwrap();
    assert_eq!(plan.version, GameVersion::Steam);
    assert_eq!(plan.backup_extension, Some("steam_backup"));
    assert_eq!(
        plan.message,
        "Patched Steam Version (DRM intact - may not work correctly)"
    );
    assert!(is_laa(plan.patched.as_ref().unwrap()).unwrap());
}

#[test]
fn patch_gog_scenario() {
    let d = fake_pe(0x0102);
    let refs = ReferenceSets::from_texts("", "", &sha_hex(&d)).unwrap();
    let plan = patch_exe(&d, &refs, false).unwrap();
    assert_eq!(plan.version, GameVersion::Gog);
    assert_eq!(plan.backup_extension, Some("gog_backup"));
    assert_eq!(plan.message, "Patched GOG Version");
    let patched = plan.patched.unwrap();
    let flag = u16::from_le_bytes([patched[LFANEW + 4 + 18], patched[LFANEW + 4 + 19]]);
    assert_eq!(flag, 0x0122);
    assert!(is_laa(&patched).unwrap());
}

#[test]
fn patch_steamless_uses_its_own_suffix() {
    let d = fake_pe(0);
    let refs = ReferenceSets::from_texts("", &sha_hex(&d), "").unwrap();
    let plan = patch_exe(&d, &refs, false).unwrap();
    assert_eq!(plan.version, GameVersion::Steamless);
    assert_eq!(plan.backup_extension, Some("steamless_backup"));
    assert_eq!(plan.message, "Patched Steamless Version");
}

#[test]
fn patch_twice_yields_identical_content() {
    let d = fake_pe(0x0102);
    let refs = ReferenceSets::from_texts("", "", &sha_hex(&d)).unwrap();
    let once = patch_exe(&d, &refs, false).unwrap().patched.unwrap();
    // the patched file no longer matches any digest but carries the flag
    let plan = patch_exe(&once, &refs, false).unwrap();
    assert_eq!(plan.version, GameVersion::AlreadyPatched);
    assert_eq!(plan.message, "Already patched");
    assert!(plan.patched.is_none());
    assert!(plan.backup_extension.is_none());
}

#[test]
fn patch_already_patched_is_a_no_op() {
    let d = fake_pe(0x0020);
    let plan = patch_exe(&d, &empty_refs(), false).unwrap();
    assert_eq!(plan.version, GameVersion::AlreadyPatched);
    assert!(plan.patched.is_none());
    assert!(plan.backup_extension.is_none());
}

#[test]
fn patch_unknown_reports_digest_hex() {
    let d = fake_pe(0);
    let r = patch_exe(&d, &empty_refs(), false);
    match r {
        Err(PatchError::UnknownVariant { digest_hex }) => {
            assert_eq!(digest_hex, sha_hex(&d));
        }
        other => panic!("expected UnknownVariant, got {:?}", other),
    }
}

#[test]
fn patch_propagates_format_error() {
    let d = vec![0u8; 3];
    let r = patch_exe(&d, &empty_refs(), false);
    assert!(matches!(
        r,
        Err(PatchError::Format(FormatError::Truncated))
    ));
}

#[test]
fn patch_digest_match_on_invalid_image_fails_to_patch() {
    // an image whose digest is listed but which is not a valid container
    let d = vec![1u8, 2, 3, 4];
    let refs = ReferenceSets::from_texts("", "", &sha_hex(&d)).unwrap();
    assert_eq!(detect_version(&d, &refs), Ok(GameVersion::Gog));
    let r = patch_exe(&d, &refs, false);
    assert!(matches!(
        r,
        Err(PatchError::Format(FormatError::Truncated))
    ));
}

#[test]
fn hash_list_parses_lines() {
    let v = get_hash_set_from_str("aabb\n\nccdd\n").unwrap();
    assert_eq!(v, vec![vec![0xAAu8, 0xBB], vec![0xCCu8, 0xDD]]);
}

#[test]
fn hash_list_accepts_crlf_and_no_final_newline() {
    let v = get_hash_set_from_str("aabb\r\nccdd").unwrap();
    assert_eq!(v, vec![vec![0xAAu8, 0xBB], vec![0xCCu8, 0xDD]]);
}

#[test]
fn hash_list_accepts_prefixed_and_uppercase_hex() {
    let v = get_hash_set_from_str("0xAABB\n").unwrap();
    assert_eq!(v, vec![vec![0xAAu8, 0xBB]]);
}

#[test]
fn hash_list_rejects_bad_hex() {
    assert!(get_hash_set_from_str("zzzz\n").is_err());
    assert!(get_hash_set_from_str("abc\n").is_err());
    // a final line ending in a bare carriage return keeps it, so it is not hex
    assert!(get_hash_set_from_str("ab\r").is_err());
}

#[test]
fn hash_list_empty_text_gives_empty_set() {
    assert_eq!(get_hash_set_from_str("").unwrap(), Vec::<Vec<u8>>::new());
    assert_eq!(get_hash_set_from_str("\n\n").unwrap(), Vec::<Vec<u8>>::new());
}

#[test]
fn reference_sets_fail_on_malformed_asset() {
    assert!(ReferenceSets::from_texts("aabb\n", "notahash\n", "").is_err());
}

#[test]
fn version_names() {
    assert_eq!(GameVersion::Steam.name(), "Steam");
    assert_eq!(GameVersion::Steamless.name(), "Steamless");
    assert_eq!(GameVersion::Gog.name(), "GOG");
    assert_eq!(GameVersion::AlreadyPatched.name(), "Already Patched");
    assert_eq!(GameVersion::Unknown.name(), "Unknown");
}
