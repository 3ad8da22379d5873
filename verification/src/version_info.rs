//! The `VS_VERSIONINFO` resource that a Windows executable carries: a tree
//! of nodes, each a small header, a UTF-16 key, a value and its children,
//! with the value and the children starting on four-byte boundaries.
use vstd::prelude::*;
use crate::text::{
    read_u16_le, read_u32_le, encode_text, encode_null_terminated_utf16_little_endian, lemma_encode_text_len, push_u16_le,
    push_u32_le, u16_le, u32_le, utf16_units,
};

verus! {

/// Resource language of every resource written: English (United States).
pub const LANGUAGE_IDENTIFIER_ENGLISH_US: u16 = 0x0409;

/// Node data type of a node whose value is binary.
pub const VERSION_NODE_DATA_TYPE_BINARY: u16 = 0;

/// Node data type of a node whose value is text.
pub const VERSION_NODE_DATA_TYPE_TEXT: u16 = 1;

/// Identifier of the version resource.
pub const VERSION_RESOURCE_IDENTIFIER: u16 = 1;

/// Signature that opens `VS_FIXEDFILEINFO`.
pub const VS_FIXED_FILE_INFO_SIGNATURE: u32 = 0xFEEF_04BD;

/// Structure version 1.0 of `VS_FIXEDFILEINFO`.
pub const VS_FIXED_FILE_INFO_STRUCT_VERSION_1_0: u32 = 0x0001_0000;

/// File-flags mask: every flag bit is valid.
pub const VS_FILE_FLAGS_MASK_ALL: u32 = 0xFFFF_FFFF;

/// File flags: none set.
pub const VS_FILE_FLAGS_NONE: u32 = 0x0000_0000;

/// Operating system: 32-bit Windows NT.
pub const VOS_NT_WINDOWS32: u32 = 0x0000_0004;

/// File type: application.
pub const VFT_APPLICATION: u32 = 0x0000_0001;

/// File subtype: none.
pub const VFT2_UNKNOWN_SUBTYPE: u32 = 0x0000_0000;

/// File date: not recorded.
pub const VS_FILE_DATE_UNUSED: u32 = 0x0000_0000;

/// Number of zero bytes that bring a length up to a multiple of four.
pub open spec fn pad_len(n: nat) -> nat {
    if n % 4 == 0 {
        0
    } else {
        (4 - n % 4) as nat
    }
}

/// `n` zero bytes.
pub open spec fn zeros(n: nat) -> Seq<u8> {
    Seq::new(n, |i: int| 0u8)
}

/// A byte sequence followed by the zero bytes that align its end to four.
pub open spec fn padded(bytes: Seq<u8>) -> Seq<u8> {
    bytes + zeros(pad_len(bytes.len()))
}

/// The byte count that a node's header records: the header, the key, the
/// value and the children, the alignment padding not counted.
pub open spec fn node_recorded_len(key: Seq<char>, value_len: nat, children_len: nat) -> int {
    (6 + encode_text(key).len() + value_len + children_len) as int
}

/// The header and key of a node: its recorded length, its value's length
/// and its data type, each a little-endian 16-bit field, then the key.
pub open spec fn node_head(key: Seq<char>, value: Seq<u8>, data_type: u16, children: Seq<u8>) -> Seq<u8> {
    u16_le((node_recorded_len(key, value.len(), children.len()) % 65536) as u16) + u16_le(
        (value.len() % 65536) as u16,
    ) + u16_le(data_type) + encode_text(key)
}

/// A version-information node: header and key, padding, value, padding,
/// children.
pub open spec fn version_node(key: Seq<char>, value: Seq<u8>, data_type: u16, children: Seq<u8>) -> Seq<u8> {
    padded(padded(node_head(key, value, data_type, children)) + value) + children
}

/// One entry of a string table: a text node whose value is a UTF-16 string,
/// its value length counted in UTF-16 units with the terminating NUL.
pub open spec fn string_entry(key: Seq<char>, value: Seq<char>) -> Seq<u8> {
    let k = encode_text(key);
    let v = encode_text(value);
    padded(
        u16_le(((6 + k.len() + v.len()) % 65536) as u16) + u16_le(
            ((utf16_units(value).len() + 1) % 65536) as u16,
        ) + u16_le(VERSION_NODE_DATA_TYPE_TEXT) + k,
    ) + v
}

/// The views of key and value of each string pair.
pub open spec fn pair_views(pairs: Seq<(String, String)>) -> Seq<(Seq<char>, Seq<char>)> {
    pairs.map_values(|p: (String, String)| (p.0@, p.1@))
}

/// The entries of a string table, each starting on a four-byte boundary.
pub open spec fn string_table_entries(pairs: Seq<(Seq<char>, Seq<char>)>) -> Seq<u8>
    decreases pairs.len(),
{
    if pairs.len() == 0 {
        seq![]
    } else {
        padded(string_table_entries(pairs.drop_last())) + string_entry(
            pairs.last().0,
            pairs.last().1,
        )
    }
}

/// The `StringFileInfo` node: one string table, for US English in Unicode.
pub open spec fn string_file_information(pairs: Seq<(Seq<char>, Seq<char>)>) -> Seq<u8> {
    version_node(
        "StringFileInfo"@,
        seq![],
        VERSION_NODE_DATA_TYPE_TEXT,
        version_node("040904B0"@, seq![], VERSION_NODE_DATA_TYPE_TEXT, string_table_entries(pairs)),
    )
}

/// The translation that the `VarFileInfo` node names: US English, Unicode.
pub open spec fn translation_entry() -> Seq<u8> {
    seq![0x09u8, 0x04u8, 0xB0u8, 0x04u8]
}

/// The `VarFileInfo` node with its single `Translation` child.
pub open spec fn variable_file_information() -> Seq<u8> {
    version_node(
        "VarFileInfo"@,
        seq![],
        VERSION_NODE_DATA_TYPE_TEXT,
        version_node("Translation"@, translation_entry(), VERSION_NODE_DATA_TYPE_BINARY, seq![]),
    )
}

/// The `VS_FIXEDFILEINFO` structure for the given file and product
/// versions: thirteen little-endian 32-bit fields.
pub open spec fn fixed_file_information(file_version: u64, product_version: u64) -> Seq<u8> {
    u32_le(0xFEEF04BDu32) + u32_le(0x00010000u32) + u32_le((file_version / 0x1_0000_0000) as u32)
        + u32_le((file_version % 0x1_0000_0000) as u32) + u32_le(
        (product_version / 0x1_0000_0000) as u32,
    ) + u32_le((product_version % 0x1_0000_0000) as u32) + u32_le(0xFFFFFFFFu32) + u32_le(0u32)
        + u32_le(4u32) + u32_le(1u32) + u32_le(0u32) + u32_le(0u32) + u32_le(0u32)
}

pub proof fn lemma_padded_len(bytes: Seq<u8>)
    ensures
        padded(bytes).len() == bytes.len() + pad_len(bytes.len()),
        padded(bytes).len() % 4 == 0,
        bytes.len() <= padded(bytes).len() < bytes.len() + 4,
{
}

pub proof fn lemma_version_node_len(key: Seq<char>, value: Seq<u8>, data_type: u16, children: Seq<u8>)
    ensures
        node_head(key, value, data_type, children).len() == 6 + encode_text(key).len(),
        version_node(key, value, data_type, children).len() >= node_recorded_len(
            key,
            value.len(),
            children.len(),
        ),
        version_node(key, value, data_type, children).len() >= padded(
            padded(node_head(key, value, data_type, children)) + value,
        ).len(),
{
    let head = node_head(key, value, data_type, children);
    lemma_padded_len(head);
    lemma_padded_len(padded(head) + value);
}

/// Appends the zero bytes that bring the buffer's length to a multiple of
/// four.
pub fn pad_to_four_byte_alignment(buffer: &mut Vec<u8>)
    requires
        old(buffer)@.len() + pad_len(old(buffer)@.len() as nat) <= usize::MAX,
    ensures
        final(buffer)@ == padded(old(buffer)@),
{
    let remainder = buffer.len() % 4;
    if remainder != 0 {
        let missing: usize = 4 - remainder;
        let mut k: usize = 0;
        while k < missing
            invariant
                k <= missing,
                missing == pad_len(old(buffer)@.len() as nat),
                buffer@ == old(buffer)@ + zeros(k as nat),
            decreases missing - k,
        {
            buffer.push(0);
            k = k + 1;
            assert(buffer@ == old(buffer)@ + zeros(k as nat));
        }
    } else {
        assert(old(buffer)@ + zeros(0) == old(buffer)@);
    }
}

/// Appends a slice of bytes.
pub fn append_bytes(buffer: &mut Vec<u8>, bytes: &[u8])
    ensures
        final(buffer)@ == old(buffer)@ + bytes@,
{
    let mut i: usize = 0;
    while i < bytes.len()
        invariant
            i <= bytes@.len(),
            buffer@ == old(buffer)@ + bytes@.take(i as int),
        decreases bytes@.len() - i,
    {
        buffer.push(bytes[i]);
        i = i + 1;
        assert(buffer@ == old(buffer)@ + bytes@.take(i as int));
    }
    assert(bytes@.take(bytes@.len() as int) == bytes@);
}

/// Builds one version-information node from its key, value bytes, data
/// type and already built children. The recorded lengths are 16-bit fields
/// and keep the low 16 bits of larger lengths.
pub fn build_version_information_node(
    key: &str,
    value_bytes: &[u8],
    data_type: u16,
    children: &[u8],
) -> (node: Vec<u8>)
    requires
        version_node(key@, value_bytes@, data_type, children@).len() <= usize::MAX,
    ensures
        node@ == version_node(key@, value_bytes@, data_type, children@),
{
    proof {
        lemma_version_node_len(key@, value_bytes@, data_type, children@);
    }
    let key_encoded = encode_null_terminated_utf16_little_endian(key);
    let header_byte_size = 2 + 2 + 2 + key_encoded.len();
    let total_byte_size = header_byte_size + value_bytes.len() + children.len();

    let mut buffer: Vec<u8> = Vec::new();
    push_u16_le(&mut buffer, (total_byte_size % 65536) as u16);
    push_u16_le(&mut buffer, (value_bytes.len() % 65536) as u16);
    push_u16_le(&mut buffer, data_type);
    append_bytes(&mut buffer, key_encoded.as_slice());
    let ghost head = buffer@;
    assert(head == node_head(key@, value_bytes@, data_type, children@));

    proof {
        lemma_padded_len(head);
        lemma_padded_len(padded(head) + value_bytes@);
    }
    pad_to_four_byte_alignment(&mut buffer);
    append_bytes(&mut buffer, value_bytes);

    pad_to_four_byte_alignment(&mut buffer);
    append_bytes(&mut buffer, children);

    buffer
}

pub proof fn lemma_string_table_entries_prefix(pairs: Seq<(Seq<char>, Seq<char>)>, i: int)
    requires
        0 <= i < pairs.len(),
    ensures
        padded(string_table_entries(pairs.take(i))).len() + string_entry(pairs[i].0, pairs[i].1).len()
            <= string_table_entries(pairs).len(),
        string_table_entries(pairs.take(i + 1)) == padded(string_table_entries(pairs.take(i)))
            + string_entry(pairs[i].0, pairs[i].1),
    decreases pairs.len() - i,
{
    assert(pairs.take(i + 1).drop_last() == pairs.take(i));
    if i + 1 == pairs.len() {
        assert(pairs.take(i + 1) == pairs);
    } else {
        let rest = pairs.take(i + 2);
        lemma_string_table_entries_prefix(pairs, i + 1);
        assert(rest.drop_last() == pairs.take(i + 1));
        lemma_padded_len(string_table_entries(pairs.take(i + 1)));
        lemma_string_table_entries_monotone(pairs, i + 2);
    }
}

proof fn lemma_string_table_entries_monotone(pairs: Seq<(Seq<char>, Seq<char>)>, i: int)
    requires
        0 <= i <= pairs.len(),
    ensures
        string_table_entries(pairs.take(i)).len() <= string_table_entries(pairs).len(),
    decreases pairs.len() - i,
{
    if i == pairs.len() {
        assert(pairs.take(i) == pairs);
    } else {
        lemma_string_table_entries_monotone(pairs, i + 1);
        assert(pairs.take(i + 1).drop_last() == pairs.take(i));
        lemma_padded_len(string_table_entries(pairs.take(i)));
    }
}

/// Builds one string-table entry: the key, and the value as UTF-16 text.
pub fn build_string_entry(key: &str, value: &str) -> (entry: Vec<u8>)
    requires
        string_entry(key@, value@).len() <= usize::MAX,
    ensures
        entry@ == string_entry(key@, value@),
{
    let key_encoded = encode_null_terminated_utf16_little_endian(key);
    let value_encoded = encode_null_terminated_utf16_little_endian(value);
    proof {
        lemma_encode_text_len(key@);
        lemma_encode_text_len(value@);
        lemma_padded_len(
            u16_le(((6 + key_encoded@.len() + value_encoded@.len()) % 65536) as u16) + u16_le(
                ((utf16_units(value@).len() + 1) % 65536) as u16,
            ) + u16_le(VERSION_NODE_DATA_TYPE_TEXT) + key_encoded@,
        );
    }
    let value_character_count: u16 = ((value_encoded.len() / 2) % 65536) as u16;
    let node_byte_length: u16 = ((2 + 2 + 2 + key_encoded.len() + value_encoded.len()) % 65536) as u16;

    let mut buffer: Vec<u8> = Vec::new();
    push_u16_le(&mut buffer, node_byte_length);
    push_u16_le(&mut buffer, value_character_count);
    push_u16_le(&mut buffer, VERSION_NODE_DATA_TYPE_TEXT);
    append_bytes(&mut buffer, key_encoded.as_slice());

    pad_to_four_byte_alignment(&mut buffer);
    append_bytes(&mut buffer, value_encoded.as_slice());

    buffer
}

/// Builds the `StringFileInfo` node holding one string table with an entry
/// for each key and value, in the order given.
pub fn build_string_file_information(pairs: &Vec<(String, String)>) -> (info: Vec<u8>)
    requires
        string_file_information(pair_views(pairs@)).len() <= usize::MAX,
    ensures
        info@ == string_file_information(pair_views(pairs@)),
{
    let ghost views = pair_views(pairs@);
    let ghost all_entries = string_table_entries(views);
    let ghost table = version_node("040904B0"@, seq![], VERSION_NODE_DATA_TYPE_TEXT, all_entries);
    proof {
        lemma_version_node_len("StringFileInfo"@, seq![], VERSION_NODE_DATA_TYPE_TEXT, table);
        lemma_version_node_len("040904B0"@, seq![], VERSION_NODE_DATA_TYPE_TEXT, all_entries);
    }
    let mut string_entries: Vec<u8> = Vec::new();
    let mut i: usize = 0;
    while i < pairs.len()
        invariant
            i <= pairs@.len(),
            views == pair_views(pairs@),
            views.len() == pairs@.len(),
            all_entries == string_table_entries(views),
            all_entries.len() <= usize::MAX,
            string_entries@ == string_table_entries(views.take(i as int)),
        decreases pairs@.len() - i,
    {
        proof {
            lemma_string_table_entries_prefix(views, i as int);
            lemma_padded_len(string_table_entries(views.take(i as int)));
        }
        pad_to_four_byte_alignment(&mut string_entries);
        let entry = build_string_entry(pairs[i].0.as_str(), pairs[i].1.as_str());
        append_bytes(&mut string_entries, entry.as_slice());
        i = i + 1;
    }
    proof {
        assert(views.take(pairs@.len() as int) == views);
    }
    let empty: Vec<u8> = Vec::new();
    let string_table = build_version_information_node(
        "040904B0",
        empty.as_slice(),
        VERSION_NODE_DATA_TYPE_TEXT,
        string_entries.as_slice(),
    );
    build_version_information_node(
        "StringFileInfo",
        empty.as_slice(),
        VERSION_NODE_DATA_TYPE_TEXT,
        string_table.as_slice(),
    )
}

/// Builds the `VarFileInfo` node, whose `Translation` child names US
/// English in Unicode.
pub fn build_variable_file_information() -> (info: Vec<u8>)
    ensures
        info@ == variable_file_information(),
{
    let translation: Vec<u8> = vec![0x09u8, 0x04u8, 0xB0u8, 0x04u8];
    let empty: Vec<u8> = Vec::new();
    proof {
        reveal_strlit("Translation");
        reveal_strlit("VarFileInfo");
        lemma_encode_text_len("Translation"@);
        lemma_encode_text_len("VarFileInfo"@);
        let t = version_node("Translation"@, translation_entry(), VERSION_NODE_DATA_TYPE_BINARY, seq![]);
        lemma_padded_len(node_head("Translation"@, translation_entry(), VERSION_NODE_DATA_TYPE_BINARY, seq![]));
        lemma_padded_len(padded(node_head("Translation"@, translation_entry(), VERSION_NODE_DATA_TYPE_BINARY, seq![])) + translation_entry());
        lemma_padded_len(node_head("VarFileInfo"@, seq![], VERSION_NODE_DATA_TYPE_TEXT, t));
        lemma_padded_len(padded(node_head("VarFileInfo"@, seq![], VERSION_NODE_DATA_TYPE_TEXT, t)));
        assert(translation@ == translation_entry());
    }
    let translation_node = build_version_information_node(
        "Translation",
        translation.as_slice(),
        VERSION_NODE_DATA_TYPE_BINARY,
        empty.as_slice(),
    );
    build_version_information_node(
        "VarFileInfo",
        empty.as_slice(),
        VERSION_NODE_DATA_TYPE_TEXT,
        translation_node.as_slice(),
    )
}

/// Builds `VS_FIXEDFILEINFO`: signature, structure version, file and
/// product versions (each as its high and low 32 bits), all flags valid and
/// none set, a Win32 application of no subtype, and no file date.
pub fn build_fixed_file_information(file_version: u64, product_version: u64) -> (info: Vec<u8>)
    ensures
        info@ == fixed_file_information(file_version, product_version),
        info@.len() == 52,
{
    let mut buffer: Vec<u8> = Vec::new();
    push_u32_le(&mut buffer, VS_FIXED_FILE_INFO_SIGNATURE);
    push_u32_le(&mut buffer, VS_FIXED_FILE_INFO_STRUCT_VERSION_1_0);
    push_u32_le(&mut buffer, (file_version / 0x1_0000_0000) as u32);
    push_u32_le(&mut buffer, (file_version % 0x1_0000_0000) as u32);
    push_u32_le(&mut buffer, (product_version / 0x1_0000_0000) as u32);
    push_u32_le(&mut buffer, (product_version % 0x1_0000_0000) as u32);
    push_u32_le(&mut buffer, VS_FILE_FLAGS_MASK_ALL);
    push_u32_le(&mut buffer, VS_FILE_FLAGS_NONE);
    push_u32_le(&mut buffer, VOS_NT_WINDOWS32);
    push_u32_le(&mut buffer, VFT_APPLICATION);
    push_u32_le(&mut buffer, VFT2_UNKNOWN_SUBTYPE);
    push_u32_le(&mut buffer, VS_FILE_DATE_UNUSED);
    push_u32_le(&mut buffer, VS_FILE_DATE_UNUSED);
    buffer
}

/// A 16-bit field reads back as the value written.
pub proof fn lemma_u16_le_reads_back(x: u16)
    ensures
        read_u16_le(u16_le(x), 0) == x,
{
}

/// A 32-bit field reads back as the value written.
pub proof fn lemma_u32_le_reads_back(x: u32)
    ensures
        read_u32_le(u32_le(x), 0) == x,
{
}

/// The offset of a node's value: after the header and key, aligned to four.
pub open spec fn node_value_offset(key: Seq<char>) -> int {
    (6 + encode_text(key).len() + pad_len((6 + encode_text(key).len()) as nat)) as int
}

/// The offset of a node's children: after the value, aligned to four.
pub open spec fn node_children_offset(key: Seq<char>, value_len: nat) -> int {
    node_value_offset(key) + value_len + pad_len((node_value_offset(key) + value_len) as nat)
}

/// A node reads back as what it was built from: its three header fields
/// give the recorded length and the value length (both modulo 2^16) and
/// the data type, the key follows them, the value and the children start
/// on four-byte boundaries, and the bytes between are zero.
pub proof fn lemma_version_node_layout(key: Seq<char>, value: Seq<u8>, data_type: u16, children: Seq<u8>)
    ensures
        ({
            let node = version_node(key, value, data_type, children);
            let k = encode_text(key);
            let v_at = node_value_offset(key);
            let c_at = node_children_offset(key, value.len());
            &&& read_u16_le(node, 0) == node_recorded_len(key, value.len(), children.len()) % 65536
            &&& read_u16_le(node, 2) == value.len() % 65536
            &&& read_u16_le(node, 4) == data_type
            &&& node.subrange(6, 6 + k.len() as int) == k
            &&& v_at % 4 == 0
            &&& c_at % 4 == 0
            &&& node.subrange(v_at, v_at + value.len()) == value
            &&& node.subrange(c_at, node.len() as int) == children
            &&& node.len() == c_at + children.len()
            &&& forall|i: int| 6 + k.len() <= i < v_at ==> node[i] == 0
            &&& forall|i: int| v_at + value.len() <= i < c_at ==> node[i] == 0
        }),
{
    let node = version_node(key, value, data_type, children);
    let head = node_head(key, value, data_type, children);
    let k = encode_text(key);
    lemma_version_node_len(key, value, data_type, children);
    lemma_padded_len(head);
    lemma_padded_len(padded(head) + value);
    let v_at = node_value_offset(key);
    let c_at = node_children_offset(key, value.len());
    assert(node.subrange(6, 6 + k.len() as int) == k);
    assert(node.subrange(v_at, v_at + value.len()) == value);
    assert(node.subrange(c_at, node.len() as int) == children);
}

/// A string-table entry reads back as what it was built from: its length
/// field (modulo 2^16) counts header, key and value, its value-length field
/// counts the value's UTF-16 units with the terminating NUL (modulo 2^16),
/// its type is text, the key follows the header and the value, NUL-ended
/// UTF-16, starts on a four-byte boundary and ends the entry.
pub proof fn lemma_string_entry_layout(key: Seq<char>, value: Seq<char>)
    ensures
        ({
            let entry = string_entry(key, value);
            let k = encode_text(key);
            let v = encode_text(value);
            let v_at = node_value_offset(key);
            &&& read_u16_le(entry, 0) == (6 + k.len() + v.len()) % 65536
            &&& read_u16_le(entry, 2) == (utf16_units(value).len() + 1) % 65536
            &&& read_u16_le(entry, 4) == VERSION_NODE_DATA_TYPE_TEXT
            &&& entry.subrange(6, 6 + k.len() as int) == k
            &&& v_at % 4 == 0
            &&& entry.subrange(v_at, entry.len() as int) == v
            &&& entry.len() == v_at + v.len()
        }),
{
    let k = encode_text(key);
    let v = encode_text(value);
    let head = u16_le(((6 + k.len() + v.len()) % 65536) as u16) + u16_le(
        ((utf16_units(value).len() + 1) % 65536) as u16,
    ) + u16_le(VERSION_NODE_DATA_TYPE_TEXT) + k;
    lemma_padded_len(head);
    let entry = string_entry(key, value);
    assert(entry.subrange(6, 6 + k.len() as int) == k);
    assert(entry.subrange(node_value_offset(key), entry.len() as int) == v);
}

/// The fixed file information is 52 bytes; it opens with the structure's
/// signature, and its file and product version fields, high half first,
/// read back as the versions it was built from.
pub proof fn lemma_fixed_file_information_layout(file_version: u64, product_version: u64)
    ensures
        ({
            let info = fixed_file_information(file_version, product_version);
            &&& info.len() == 52
            &&& read_u32_le(info, 0) == 0xFEEF04BD
            &&& read_u32_le(info, 8) * 0x1_0000_0000 + read_u32_le(info, 12) == file_version
            &&& read_u32_le(info, 16) * 0x1_0000_0000 + read_u32_le(info, 20) == product_version
        }),
{
    let info = fixed_file_information(file_version, product_version);
    let fv_high = (file_version / 0x1_0000_0000) as u32;
    let fv_low = (file_version % 0x1_0000_0000) as u32;
    let pv_high = (product_version / 0x1_0000_0000) as u32;
    let pv_low = (product_version % 0x1_0000_0000) as u32;
    let head = u32_le(0xFEEF04BDu32) + u32_le(0x00010000u32) + u32_le(fv_high) + u32_le(fv_low)
        + u32_le(pv_high) + u32_le(pv_low);
    let tail = u32_le(0xFFFFFFFFu32) + u32_le(0u32) + u32_le(4u32) + u32_le(1u32) + u32_le(0u32)
        + u32_le(0u32) + u32_le(0u32);
    assert(info =~= head + tail);
    assert(head.len() == 24);
    assert(tail.len() == 28);
    assert(info.subrange(0, 4) =~= u32_le(0xFEEF04BDu32));
    assert(info.subrange(8, 12) =~= u32_le(fv_high));
    assert(info.subrange(12, 16) =~= u32_le(fv_low));
    assert(info.subrange(16, 20) =~= u32_le(pv_high));
    assert(info.subrange(20, 24) =~= u32_le(pv_low));
    lemma_read_u32_le_subrange(info, 0);
    lemma_read_u32_le_subrange(info, 8);
    lemma_read_u32_le_subrange(info, 12);
    lemma_read_u32_le_subrange(info, 16);
    lemma_read_u32_le_subrange(info, 20);
    lemma_u32_le_reads_back(0xFEEF04BDu32);
    lemma_u32_le_reads_back(fv_high);
    lemma_u32_le_reads_back(fv_low);
    lemma_u32_le_reads_back(pv_high);
    lemma_u32_le_reads_back(pv_low);
}

proof fn lemma_read_u32_le_subrange(bytes: Seq<u8>, at: int)
    requires
        0 <= at,
        at + 4 <= bytes.len(),
    ensures
        read_u32_le(bytes, at) == read_u32_le(bytes.subrange(at, at + 4), 0),
{
}

/// The upper-case hexadecimal digits, by value.
pub open spec fn hex_digits() -> Seq<char> {
    "0123456789ABCDEF"@
}

/// A 16-bit value as four upper-case hexadecimal digits, most significant
/// first.
pub open spec fn hex4(x: int) -> Seq<char> {
    seq![
        hex_digits()[(x / 4096) % 16],
        hex_digits()[(x / 256) % 16],
        hex_digits()[(x / 16) % 16],
        hex_digits()[x % 16],
    ]
}

/// The string table inside the string file information is keyed by the
/// language and code page that the `Translation` entry of the variable file
/// information names, each written as four upper-case hex digits; these are
/// US English (0x0409) and Unicode (0x04B0).
pub proof fn lemma_string_table_key_matches_translation(pairs: Seq<(Seq<char>, Seq<char>)>)
    ensures
        ({
            let info = string_file_information(pairs);
            let table_at = node_children_offset("StringFileInfo"@, 0);
            let vars = variable_file_information();
            let translation_at = node_children_offset("VarFileInfo"@, 0) + node_value_offset(
                "Translation"@,
            );
            let language = read_u16_le(vars, translation_at);
            let code_page = read_u16_le(vars, translation_at + 2);
            &&& language == 0x0409
            &&& code_page == 0x04B0
            &&& table_at + 24 <= info.len()
            &&& info.subrange(table_at + 6, table_at + 24) == encode_text(hex4(language) + hex4(code_page))
        }),
{
    lemma_string_table_key(pairs);
    lemma_translation_entry_values();
    lemma_us_english_unicode_hex();
}

proof fn lemma_us_english_unicode_hex()
    ensures
        hex4(0x0409) + hex4(0x04B0) == "040904B0"@,
{
    reveal_strlit("040904B0");
    reveal_strlit("0123456789ABCDEF");
    assert(hex4(0x0409) + hex4(0x04B0) =~= "040904B0"@);
}

proof fn lemma_string_table_key(pairs: Seq<(Seq<char>, Seq<char>)>)
    ensures
        ({
            let info = string_file_information(pairs);
            let table_at = node_children_offset("StringFileInfo"@, 0);
            &&& table_at + 24 <= info.len()
            &&& info.subrange(table_at + 6, table_at + 24) == encode_text("040904B0"@)
        }),
{
    reveal_strlit("040904B0");
    let key = "040904B0"@;
    assert(forall|i: int| 0 <= i < key.len() ==> (#[trigger] key[i] as u32) < 0x10000);
    crate::text::lemma_encode_text_bmp(key);
    let entries = string_table_entries(pairs);
    let table = version_node(key, seq![], VERSION_NODE_DATA_TYPE_TEXT, entries);
    let info = string_file_information(pairs);
    lemma_node_children(("StringFileInfo"@), seq![], VERSION_NODE_DATA_TYPE_TEXT, table);
    lemma_node_key(key, seq![], VERSION_NODE_DATA_TYPE_TEXT, entries);
    lemma_version_node_len(key, seq![], VERSION_NODE_DATA_TYPE_TEXT, entries);
    let table_at = node_children_offset("StringFileInfo"@, 0);
    let outer = info.subrange(table_at, info.len() as int);
    assert(outer == table);
    assert(info.subrange(table_at + 6, table_at + 24) =~= outer.subrange(6, 24));
}

proof fn lemma_translation_entry_values()
    ensures
        ({
            let vars = variable_file_information();
            let translation_at = node_children_offset("VarFileInfo"@, 0) + node_value_offset(
                "Translation"@,
            );
            &&& read_u16_le(vars, translation_at) == 0x0409
            &&& read_u16_le(vars, translation_at + 2) == 0x04B0
        }),
{
    let translation = version_node("Translation"@, translation_entry(), VERSION_NODE_DATA_TYPE_BINARY, seq![]);
    let vars = variable_file_information();
    lemma_node_children("VarFileInfo"@, seq![], VERSION_NODE_DATA_TYPE_TEXT, translation);
    lemma_node_value("Translation"@, translation_entry(), VERSION_NODE_DATA_TYPE_BINARY, seq![]);
    let outer_at = node_children_offset("VarFileInfo"@, 0);
    let inner_at = node_value_offset("Translation"@);
    let outer = vars.subrange(outer_at, vars.len() as int);
    assert(outer == translation);
    let window = translation.subrange(inner_at, inner_at + 4);
    assert(window == translation_entry());
    assert(vars.subrange(outer_at + inner_at, outer_at + inner_at + 4) =~= window);
    let w = vars.subrange(outer_at + inner_at, outer_at + inner_at + 4);
    assert(w[0] == vars[outer_at + inner_at]);
    assert(w[1] == vars[outer_at + inner_at + 1]);
    assert(w[2] == vars[outer_at + inner_at + 2]);
    assert(w[3] == vars[outer_at + inner_at + 3]);
}

proof fn lemma_node_children(key: Seq<char>, value: Seq<u8>, data_type: u16, children: Seq<u8>)
    ensures
        ({
            let node = version_node(key, value, data_type, children);
            let c_at = node_children_offset(key, value.len());
            &&& 0 <= c_at <= node.len()
            &&& node.subrange(c_at, node.len() as int) == children
        }),
{
    lemma_version_node_layout(key, value, data_type, children);
}

proof fn lemma_node_key(key: Seq<char>, value: Seq<u8>, data_type: u16, children: Seq<u8>)
    ensures
        ({
            let node = version_node(key, value, data_type, children);
            &&& 6 + encode_text(key).len() <= node.len()
            &&& node.subrange(6, 6 + encode_text(key).len() as int) == encode_text(key)
        }),
{
    lemma_version_node_layout(key, value, data_type, children);
}

proof fn lemma_node_value(key: Seq<char>, value: Seq<u8>, data_type: u16, children: Seq<u8>)
    ensures
        ({
            let node = version_node(key, value, data_type, children);
            let v_at = node_value_offset(key);
            &&& 0 <= v_at
            &&& v_at + value.len() <= node.len()
            &&& node.subrange(v_at, v_at + value.len()) == value
        }),
{
    lemma_version_node_layout(key, value, data_type, children);
}

} // verus!


