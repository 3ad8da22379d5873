use cargo_bundle::exe_bundle::{
    embed_resources, icon_resource_layout, select_svg_icon, IconResource, ResourceEmbedding,
};
use cargo_bundle::text::encode_null_terminated_utf16_little_endian;
use cargo_bundle::version_info::{
    build_fixed_file_information, build_string_entry, build_string_file_information,
    build_variable_file_information, build_version_information_node, pad_to_four_byte_alignment,
};
use cargo_bundle::version_resource::{
    build_version_information_resource, executable_file_name, version_information_data,
    version_string_pairs, ExecutableMetadata,
};
use cargo_bundle::version_string::parse_version_string;

fn read_u16(bytes: &[u8], at: usize) -> u16 {
    u16::from_le_bytes([bytes[at], bytes[at + 1]])
}

fn read_u32(bytes: &[u8], at: usize) -> u32 {
    u32::from_le_bytes([bytes[at], bytes[at + 1], bytes[at + 2], bytes[at + 3]])
}

fn metadata() -> ExecutableMetadata {
    ExecutableMetadata {
        bundle_name: "Goodbye".to_string(),
        short_description: "A small example program".to_string(),
        version: "0.9.1".to_string(),
        copyright: None,
        authors: Some("Jane Doe, John Roe".to_string()),
        binary_name: "goodbye".to_string(),
    }
}

#[test]
fn encodes_ascii_text_with_terminator() {
    assert_eq!(encode_null_terminated_utf16_little_endian("AB"), vec![0x41, 0, 0x42, 0, 0, 0]);
    assert_eq!(encode_null_terminated_utf16_little_endian(""), vec![0, 0]);
}

#[test]
fn encodes_non_ascii_text_as_utf16() {
    assert_eq!(encode_null_terminated_utf16_little_endian("é"), vec![0xE9, 0x00, 0, 0]);
    assert_eq!(encode_null_terminated_utf16_little_endian("€"), vec![0xAC, 0x20, 0, 0]);
    // U+1F600 becomes the surrogate pair D83D DE00.
    assert_eq!(
        encode_null_terminated_utf16_little_endian("😀"),
        vec![0x3D, 0xD8, 0x00, 0xDE, 0, 0]
    );
    let expected: Vec<u8> = "x😀y"
        .encode_utf16()
        .chain(std::iter::once(0))
        .flat_map(|unit| unit.to_le_bytes())
        .collect();
    assert_eq!(encode_null_terminated_utf16_little_endian("x😀y"), expected);
}

#[test]
fn pads_to_four_byte_alignment() {
    let mut buffer = vec![1u8, 2, 3, 4, 5];
    pad_to_four_byte_alignment(&mut buffer);
    assert_eq!(buffer, vec![1, 2, 3, 4, 5, 0, 0, 0]);

    let mut aligned = vec![7u8; 8];
    pad_to_four_byte_alignment(&mut aligned);
    assert_eq!(aligned, vec![7u8; 8]);

    let mut empty: Vec<u8> = Vec::new();
    pad_to_four_byte_alignment(&mut empty);
    assert!(empty.is_empty());

    let mut seven = vec![9u8; 7];
    pad_to_four_byte_alignment(&mut seven);
    assert_eq!(seven.len(), 8);
    assert_eq!(seven[7], 0);
}

#[test]
fn parses_version_strings() {
    assert_eq!(parse_version_string("0.9.1"), 0x0000_0009_0001_0000);
    assert_eq!(parse_version_string("1.2.3.4"), 0x0001_0002_0003_0004);
    assert_eq!(parse_version_string("10.20"), 0x000A_0014_0000_0000);
    assert_eq!(parse_version_string(""), 0);
}

#[test]
fn version_components_that_are_no_numbers_count_as_zero() {
    assert_eq!(parse_version_string("1.2.3-beta"), 0x0001_0002_0000_0000);
    assert_eq!(parse_version_string("1.2.3.4.5"), 0x0001_0002_0003_0000);
    assert_eq!(parse_version_string("a.b.c.d"), 0);
    assert_eq!(parse_version_string("1..2"), 0x0001_0000_0002_0000);
    assert_eq!(parse_version_string("+7.1"), 0x0007_0001_0000_0000);
    assert_eq!(parse_version_string("+.1"), 0x0000_0001_0000_0000);
    assert_eq!(parse_version_string("-1.1"), 0x0000_0001_0000_0000);
    assert_eq!(parse_version_string("007.0.0.9"), 0x0007_0000_0000_0009);
    assert_eq!(parse_version_string("99999999999999999999.1"), 0x0000_0001_0000_0000);
    assert_eq!(parse_version_string("18446744073709551615.0.0.0"), 0xFFFF_0000_0000_0000);
}

#[test]
fn wide_version_components_overlap_their_neighbours() {
    // 65536 shifted by 48 leaves 64 bits; 65537 keeps its low bit there.
    assert_eq!(parse_version_string("65536"), 0);
    assert_eq!(parse_version_string("65537"), 0x0001_0000_0000_0000);
    assert_eq!(parse_version_string("0.65536"), 0x0001_0000_0000_0000);
}

#[test]
fn packed_version_fields_read_back() {
    let v = parse_version_string("3.14.15.92");
    assert_eq!(v >> 48, 3);
    assert_eq!((v >> 32) & 0xFFFF, 14);
    assert_eq!((v >> 16) & 0xFFFF, 15);
    assert_eq!(v & 0xFFFF, 92);
}

#[test]
fn builds_fixed_file_information() {
    let info = build_fixed_file_information(0x0001_0002_0003_0004, 0x0005_0006_0007_0008);
    assert_eq!(info.len(), 52);
    assert_eq!(read_u32(&info, 0), 0xFEEF_04BD);
    assert_eq!(read_u32(&info, 4), 0x0001_0000);
    assert_eq!(read_u32(&info, 8), 0x0001_0002);
    assert_eq!(read_u32(&info, 12), 0x0003_0004);
    assert_eq!(read_u32(&info, 16), 0x0005_0006);
    assert_eq!(read_u32(&info, 20), 0x0007_0008);
    assert_eq!(read_u32(&info, 24), 0xFFFF_FFFF);
    assert_eq!(read_u32(&info, 28), 0);
    assert_eq!(read_u32(&info, 32), 4);
    assert_eq!(read_u32(&info, 36), 1);
    assert_eq!(read_u32(&info, 40), 0);
    assert_eq!(read_u32(&info, 44), 0);
    assert_eq!(read_u32(&info, 48), 0);
    assert_eq!(&info[0..4], &[0xBD, 0x04, 0xEF, 0xFE]);
}

#[test]
fn builds_version_information_node() {
    let node = build_version_information_node("A", &[1, 2, 3], 0, &[9]);
    assert_eq!(
        node,
        vec![14, 0, 3, 0, 0, 0, 0x41, 0, 0, 0, 0, 0, 1, 2, 3, 0, 9]
    );
}

#[test]
fn node_header_records_lengths_without_padding() {
    let children = vec![0xAAu8; 5];
    let node = build_version_information_node("Key", &[], 1, &children);
    // Header 6 + key 8 = 14, padded to 16; no value; children follow.
    assert_eq!(node.len(), 16 + 5);
    assert_eq!(read_u16(&node, 0), 6 + 8 + 5);
    assert_eq!(read_u16(&node, 2), 0);
    assert_eq!(read_u16(&node, 4), 1);
    assert_eq!(&node[16..], &children[..]);
}

#[test]
fn node_lengths_keep_their_low_sixteen_bits() {
    let children = vec![0u8; 70_000];
    let node = build_version_information_node("A", &[], 1, &children);
    assert_eq!(read_u16(&node, 0) as usize, (10 + 70_000) % 65536);
}

#[test]
fn builds_string_entry() {
    let entry = build_string_entry("K", "V");
    assert_eq!(entry, vec![14, 0, 2, 0, 1, 0, 0x4B, 0, 0, 0, 0, 0, 0x56, 0, 0, 0]);
}

#[test]
fn string_entry_counts_utf16_units() {
    let entry = build_string_entry("Name", "😀é");
    // Value units: two for the emoji, one for é, one for the NUL.
    assert_eq!(read_u16(&entry, 2), 4);
    assert_eq!(read_u16(&entry, 4), 1);
    // Header 6 + key 10 = 16, value 8 bytes.
    assert_eq!(read_u16(&entry, 0), 6 + 10 + 8);
    assert_eq!(entry.len(), 16 + 8);
}

#[test]
fn builds_string_file_information() {
    let pairs = vec![("K".to_string(), "V".to_string())];
    let info = build_string_file_information(&pairs);
    // StringFileInfo: header and key 36, then the 40-byte string table.
    assert_eq!(info.len(), 76);
    assert_eq!(read_u16(&info, 0), 76);
    assert_eq!(read_u16(&info, 2), 0);
    assert_eq!(read_u16(&info, 4), 1);
    assert_eq!(read_u16(&info, 36), 40);
    assert_eq!(&info[60..76], &build_string_entry("K", "V")[..]);
}

#[test]
fn string_table_entries_start_on_four_byte_boundaries() {
    let pairs = vec![
        ("A".to_string(), "x".to_string()),
        ("B".to_string(), "yz".to_string()),
    ];
    let info = build_string_file_information(&pairs);
    let first = build_string_entry("A", "x");
    let second = build_string_entry("B", "yz");
    assert_eq!(first.len(), 16);
    assert_eq!(second.len(), 18);
    assert_eq!(&info[60..76], &first[..]);
    assert_eq!(&info[76..94], &second[..]);
    assert_eq!(info.len(), 94);
}

#[test]
fn builds_variable_file_information() {
    let info = build_variable_file_information();
    assert_eq!(info.len(), 68);
    assert_eq!(read_u16(&info, 0), 66);
    assert_eq!(read_u16(&info, 2), 0);
    assert_eq!(read_u16(&info, 4), 1);
    let translation = &info[32..];
    assert_eq!(read_u16(translation, 0), 34);
    assert_eq!(read_u16(translation, 2), 4);
    assert_eq!(read_u16(translation, 4), 0);
    assert_eq!(&translation[32..36], &[0x09, 0x04, 0xB0, 0x04]);
}

#[test]
fn builds_version_information_resource() {
    let pairs = vec![("ProductName".to_string(), "Goodbye".to_string())];
    let resource = build_version_information_resource("1.2.3.4", &pairs);
    assert_eq!(read_u16(&resource, 0) as usize, resource.len() - 2);
    assert_eq!(read_u16(&resource, 2), 52);
    assert_eq!(read_u16(&resource, 4), 0);
    assert_eq!(
        &resource[6..38],
        &encode_null_terminated_utf16_little_endian("VS_VERSION_INFO")[..]
    );
    assert_eq!(&resource[40..92], &build_fixed_file_information(0x0001_0002_0003_0004, 0x0001_0002_0003_0004)[..]);
    let sfi = build_string_file_information(&pairs);
    let vfi = build_variable_file_information();
    assert_eq!(&resource[92..92 + sfi.len()], &sfi[..]);
    assert_eq!(&resource[92 + sfi.len()..], &vfi[..]);
}

#[test]
fn version_string_table_follows_metadata() {
    let pairs = version_string_pairs(&metadata());
    let expected: Vec<(String, String)> = vec![
        ("ProductName", "Goodbye"),
        ("FileDescription", "A small example program"),
        ("FileVersion", "0.9.1"),
        ("ProductVersion", "0.9.1"),
        ("LegalCopyright", ""),
        ("CompanyName", "Jane Doe, John Roe"),
        ("InternalName", "goodbye"),
        ("OriginalFilename", "goodbye.exe"),
    ]
    .into_iter()
    .map(|(k, v)| (k.to_string(), v.to_string()))
    .collect();
    assert_eq!(pairs, expected);
}

#[test]
fn version_information_data_combines_table_and_version() {
    let m = metadata();
    let data = version_information_data(&m);
    assert_eq!(data, build_version_information_resource("0.9.1", &version_string_pairs(&m)));
    assert_eq!(read_u32(&data, 40 + 8), 0x0000_0009);
    assert_eq!(read_u32(&data, 40 + 12), 0x0001_0000);
}

#[test]
fn names_the_executable() {
    assert_eq!(executable_file_name("goodbye"), "goodbye.exe");
    assert_eq!(executable_file_name(""), ".exe");
}

#[test]
fn selects_first_svg_icon() {
    let files = vec![Some(b"png".to_vec()), None, Some(b"svg".to_vec()), Some(b"svg".to_vec())];
    assert_eq!(select_svg_icon(&files), Some(2));
    assert_eq!(select_svg_icon(&vec![Some(b"SVG".to_vec()), Some(b"svgz".to_vec())]), None);
    assert_eq!(select_svg_icon(&Vec::new()), None);
}

#[test]
fn embeds_resources_only_on_windows_hosts() {
    assert!(matches!(embed_resources(true), ResourceEmbedding::EmbedWindowsResources));
    match embed_resources(false) {
        ResourceEmbedding::SkipWithWarning(warning) => assert_eq!(
            warning,
            "Windows PE resource embedding (icons, version information) is only performed when cargo-bundle itself is run on Windows."
        ),
        ResourceEmbedding::EmbedWindowsResources => panic!("resources embedded off Windows"),
    }
}

#[test]
fn lays_out_icon_resources() {
    let layout = icon_resource_layout();
    let sizes = [16u32, 24, 32, 48, 64, 96, 128, 256, 512];
    assert_eq!(layout.len(), sizes.len());
    for (k, size) in sizes.iter().enumerate() {
        assert_eq!(layout[k], IconResource { identifier: 1 + k as u16, pixel_size: *size });
    }
}

/// The packing computed with std's own `splitn` and `parse`.
fn packed_with_std(version_string: &str) -> u64 {
    let mut components = version_string
        .splitn(4, '.')
        .map(|component| component.parse::<u64>().unwrap_or(0));
    let major = components.next().unwrap_or(0);
    let minor = components.next().unwrap_or(0);
    let patch = components.next().unwrap_or(0);
    let build = components.next().unwrap_or(0);
    (major << 48) | (minor << 32) | (patch << 16) | build
}

#[test]
fn version_parsing_agrees_with_std() {
    let samples = [
        "", ".", "..", "...", "....", "+", "-", "+1", "-0", "++1", "1+", " 1", "1 ", "0.9.1",
        "1.2.3.4", "1.2.3.4.5", "1.2.3-beta.4", "٣.1", "1.2.3+build", "18446744073709551615",
        "18446744073709551616", "00000000000000000000001.2", "7.+8.-9.+", "4.3.2.1.", "é.1",
    ];
    for sample in samples {
        assert_eq!(parse_version_string(sample), packed_with_std(sample), "{sample:?}");
    }
}

#[test]
fn text_encoding_agrees_with_std() {
    let samples = ["", "ProductName", "Ünïcödé", "日本語", "a😀b🎉", "\u{FFFF}\u{10000}\u{10FFFF}", "\0"];
    for sample in samples {
        let expected: Vec<u8> = sample
            .encode_utf16()
            .chain(std::iter::once(0))
            .flat_map(|unit| unit.to_le_bytes())
            .collect();
        assert_eq!(encode_null_terminated_utf16_little_endian(sample), expected, "{sample:?}");
    }
}

#[test]
fn node_value_and_children_start_aligned() {
    for key in ["", "A", "AB", "ABC", "Translation", "VS_VERSION_INFO"] {
        for value_len in 0..6usize {
            let value = vec![0x55u8; value_len];
            let children = vec![0x66u8; 3];
            let node = build_version_information_node(key, &value, 0, &children);
            let key_len = encode_null_terminated_utf16_little_endian(key).len();
            let value_at = (6 + key_len + 3) / 4 * 4;
            let children_at = (value_at + value_len + 3) / 4 * 4;
            assert_eq!(&node[value_at..value_at + value_len], &value[..]);
            assert_eq!(&node[children_at..], &children[..]);
            assert!(node[6 + key_len..value_at].iter().all(|b| *b == 0));
            assert!(node[value_at + value_len..children_at].iter().all(|b| *b == 0));
            assert_eq!(read_u16(&node, 0) as usize, 6 + key_len + value_len + 3);
            assert_eq!(read_u16(&node, 2) as usize, value_len);
        }
    }
}
