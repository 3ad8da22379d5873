//! The complete version resource of an executable, from the metadata that
//! the bundle settings give.
use vstd::prelude::*;
use vstd::string::StringExecFns;
use crate::version_info::{
    build_fixed_file_information, build_string_file_information, build_variable_file_information,
    build_version_information_node, fixed_file_information, lemma_fixed_file_information_layout,
    lemma_version_node_layout, lemma_version_node_len, node_children_offset, node_value_offset,
    pair_views,
    string_file_information, variable_file_information, version_node,
    VERSION_NODE_DATA_TYPE_BINARY,
};
use crate::text::{read_u16_le, read_u32_le};
use crate::version_string::{packed_version, parse_version_string};

verus! {

/// What the version resource tells of an executable, as the bundle
/// settings hold it.
pub struct ExecutableMetadata {
    /// The product name shown to users.
    pub bundle_name: String,
    /// A one-line description of the program.
    pub short_description: String,
    /// The version string, such as `1.4.2`.
    pub version: String,
    /// The copyright notice, where the settings give one.
    pub copyright: Option<String>,
    /// The authors joined by commas, where the settings name any.
    pub authors: Option<String>,
    /// The name of the binary, without the `.exe` suffix.
    pub binary_name: String,
}

/// The text of an optional string, empty where it is absent.
pub open spec fn text_or_empty(text: Option<String>) -> Seq<char> {
    match text {
        Some(s) => s@,
        None => Seq::<char>::empty(),
    }
}

/// The file name of the Windows executable for a binary.
pub open spec fn executable_name(binary_name: Seq<char>) -> Seq<char> {
    binary_name + ".exe"@
}

/// The string table of the version resource: product name, description,
/// file and product version, copyright, company (the authors), internal
/// name and original file name, in this order.
pub open spec fn version_string_table(metadata: ExecutableMetadata) -> Seq<(Seq<char>, Seq<char>)> {
    seq![
        ("ProductName"@, metadata.bundle_name@),
        ("FileDescription"@, metadata.short_description@),
        ("FileVersion"@, metadata.version@),
        ("ProductVersion"@, metadata.version@),
        ("LegalCopyright"@, text_or_empty(metadata.copyright)),
        ("CompanyName"@, text_or_empty(metadata.authors)),
        ("InternalName"@, metadata.binary_name@),
        ("OriginalFilename"@, executable_name(metadata.binary_name@)),
    ]
}

/// The `VS_VERSION_INFO` resource: the fixed file information, with the
/// packed version as both file and product version, then the string file
/// information and the variable file information.
pub open spec fn version_resource(version_string: Seq<char>, pairs: Seq<(Seq<char>, Seq<char>)>) -> Seq<u8> {
    let v = packed_version(version_string);
    version_node(
        "VS_VERSION_INFO"@,
        fixed_file_information(v, v),
        VERSION_NODE_DATA_TYPE_BINARY,
        string_file_information(pairs) + variable_file_information(),
    )
}

/// The file name of the Windows executable for a binary: its name with
/// `.exe` appended.
pub fn executable_file_name(binary_name: &str) -> (name: String)
    ensures
        name@ == executable_name(binary_name@),
        name@.len() == binary_name@.len() + 4,
        name@.subrange(0, binary_name@.len() as int) == binary_name@,
        name@.subrange(binary_name@.len() as int, name@.len() as int) == ".exe"@,
{
    proof {
        lemma_executable_name_extends_binary_name(binary_name@);
    }
    let mut name = binary_name.to_owned();
    name.append(".exe");
    name
}

fn owned_or_empty(text: &Option<String>) -> (owned: String)
    ensures
        owned@ == text_or_empty(*text),
{
    match text {
        Some(s) => s.clone(),
        None => String::new(),
    }
}

/// The keys and values of the version resource's string table.
pub fn version_string_pairs(metadata: &ExecutableMetadata) -> (pairs: Vec<(String, String)>)
    ensures
        pair_views(pairs@) == version_string_table(*metadata),
        pairs@.len() == 8,
        metadata.copyright matches Some(c) ==> pairs@[4].1@ == c@,
        metadata.authors matches Some(a) ==> pairs@[5].1@ == a@,
        pairs@[7].1@ == pairs@[6].1@ + ".exe"@,
{
    let mut pairs: Vec<(String, String)> = Vec::new();
    pairs.push(("ProductName".to_owned(), metadata.bundle_name.clone()));
    pairs.push(("FileDescription".to_owned(), metadata.short_description.clone()));
    pairs.push(("FileVersion".to_owned(), metadata.version.clone()));
    pairs.push(("ProductVersion".to_owned(), metadata.version.clone()));
    pairs.push(("LegalCopyright".to_owned(), owned_or_empty(&metadata.copyright)));
    pairs.push(("CompanyName".to_owned(), owned_or_empty(&metadata.authors)));
    pairs.push(("InternalName".to_owned(), metadata.binary_name.clone()));
    pairs.push(("OriginalFilename".to_owned(), executable_file_name(metadata.binary_name.as_str())));
    assert(pair_views(pairs@) =~= version_string_table(*metadata));
    proof {
        lemma_version_string_table_carries_metadata(*metadata, pairs@);
    }
    pairs
}

/// Builds the `VS_VERSION_INFO` resource for a version string and the
/// keys and values of its string table.
pub fn build_version_information_resource(
    version_string: &str,
    string_pairs: &Vec<(String, String)>,
) -> (resource: Vec<u8>)
    requires
        version_resource(version_string@, pair_views(string_pairs@)).len() <= usize::MAX,
    ensures
        resource@ == version_resource(version_string@, pair_views(string_pairs@)),
{
    let version = parse_version_string(version_string);
    let fixed_file_information = build_fixed_file_information(version, version);
    let string_file_information = build_string_file_information(string_pairs);
    let variable_file_information = build_variable_file_information();
    proof {
        lemma_version_node_len(
            "VS_VERSION_INFO"@,
            fixed_file_information@,
            VERSION_NODE_DATA_TYPE_BINARY,
            string_file_information@ + variable_file_information@,
        );
    }
    let mut children: Vec<u8> = Vec::new();
    crate::version_info::append_bytes(&mut children, string_file_information.as_slice());
    crate::version_info::append_bytes(&mut children, variable_file_information.as_slice());
    build_version_information_node(
        "VS_VERSION_INFO",
        fixed_file_information.as_slice(),
        VERSION_NODE_DATA_TYPE_BINARY,
        children.as_slice(),
    )
}

/// The version resource data of an executable, built from its metadata.
pub fn version_information_data(metadata: &ExecutableMetadata) -> (data: Vec<u8>)
    requires
        version_resource(metadata.version@, version_string_table(*metadata)).len() <= usize::MAX,
    ensures
        data@ == version_resource(metadata.version@, version_string_table(*metadata)),
{
    let pairs = version_string_pairs(metadata);
    build_version_information_resource(metadata.version.as_str(), &pairs)
}

/// The version resource is a binary node keyed `VS_VERSION_INFO` whose
/// 52-byte value is the fixed file information, from which the packed
/// version of the version string reads back as file and as product version,
/// and whose children are the string and the variable file information.
pub proof fn lemma_version_resource_layout(version_string: Seq<char>, pairs: Seq<(Seq<char>, Seq<char>)>)
    ensures
        ({
            let resource = version_resource(version_string, pairs);
            let v_at = node_value_offset("VS_VERSION_INFO"@);
            let c_at = node_children_offset("VS_VERSION_INFO"@, 52);
            let version = packed_version(version_string);
            &&& read_u16_le(resource, 2) == 52
            &&& read_u16_le(resource, 4) == VERSION_NODE_DATA_TYPE_BINARY
            &&& resource.subrange(v_at, v_at + 52) == fixed_file_information(version, version)
            &&& read_u32_le(resource, v_at + 8) * 0x1_0000_0000 + read_u32_le(resource, v_at + 12) == version
            &&& read_u32_le(resource, v_at + 16) * 0x1_0000_0000 + read_u32_le(resource, v_at + 20) == version
            &&& resource.subrange(c_at, resource.len() as int) == string_file_information(pairs)
                + variable_file_information()
        }),
{
    let version = packed_version(version_string);
    let fixed = fixed_file_information(version, version);
    let children = string_file_information(pairs) + variable_file_information();
    lemma_version_node_layout("VS_VERSION_INFO"@, fixed, VERSION_NODE_DATA_TYPE_BINARY, children);
    lemma_fixed_file_information_layout(version, version);
    let resource = version_resource(version_string, pairs);
    let v_at = node_value_offset("VS_VERSION_INFO"@);
    let window = resource.subrange(v_at, v_at + 52);
    assert(window == fixed);
    assert forall|j: int| 0 <= j < 52 implies resource[v_at + j] == #[trigger] fixed[j] by {
        assert(window[j] == resource[v_at + j]);
    }
    assert(resource[v_at + 8] == fixed[8]);
    assert(resource[v_at + 9] == fixed[9]);
    assert(resource[v_at + 10] == fixed[10]);
    assert(resource[v_at + 11] == fixed[11]);
    assert(resource[v_at + 12] == fixed[12]);
    assert(resource[v_at + 13] == fixed[13]);
    assert(resource[v_at + 14] == fixed[14]);
    assert(resource[v_at + 15] == fixed[15]);
    assert(resource[v_at + 16] == fixed[16]);
    assert(resource[v_at + 17] == fixed[17]);
    assert(resource[v_at + 18] == fixed[18]);
    assert(resource[v_at + 19] == fixed[19]);
    assert(resource[v_at + 20] == fixed[20]);
    assert(resource[v_at + 21] == fixed[21]);
    assert(resource[v_at + 22] == fixed[22]);
    assert(resource[v_at + 23] == fixed[23]);
}

/// An executable's name is the binary's name, unchanged, followed by
/// `.exe`.
pub proof fn lemma_executable_name_extends_binary_name(binary_name: Seq<char>)
    ensures
        executable_name(binary_name).len() == binary_name.len() + 4,
        executable_name(binary_name).subrange(0, binary_name.len() as int) == binary_name,
        executable_name(binary_name).subrange(
            binary_name.len() as int,
            executable_name(binary_name).len() as int,
        ) == ".exe"@,
{
    reveal_strlit(".exe");
    let name = executable_name(binary_name);
    assert(name.subrange(0, binary_name.len() as int) =~= binary_name);
    assert(name.subrange(binary_name.len() as int, name.len() as int) =~= ".exe"@);
}

/// Any string table with the views of `version_string_table` holds the
/// metadata as given: the copyright notice and the authors where they are
/// present (empty where absent), the product name, the version as both
/// file and product version, and the binary's name as internal name with
/// the original file name being that name followed by `.exe`.
pub proof fn lemma_version_string_table_carries_metadata(
    metadata: ExecutableMetadata,
    pairs: Seq<(String, String)>,
)
    requires
        pair_views(pairs) == version_string_table(metadata),
    ensures
        pairs.len() == 8,
        pairs[0].0@ == "ProductName"@ && pairs[0].1@ == metadata.bundle_name@,
        pairs[1].0@ == "FileDescription"@ && pairs[1].1@ == metadata.short_description@,
        pairs[2].0@ == "FileVersion"@ && pairs[2].1@ == metadata.version@,
        pairs[3].0@ == "ProductVersion"@ && pairs[3].1@ == metadata.version@,
        pairs[4].0@ == "LegalCopyright"@,
        metadata.copyright matches Some(c) ==> pairs[4].1@ == c@,
        metadata.copyright is None ==> pairs[4].1@.len() == 0,
        pairs[5].0@ == "CompanyName"@,
        metadata.authors matches Some(a) ==> pairs[5].1@ == a@,
        metadata.authors is None ==> pairs[5].1@.len() == 0,
        pairs[6].0@ == "InternalName"@ && pairs[6].1@ == metadata.binary_name@,
        pairs[7].0@ == "OriginalFilename"@ && pairs[7].1@ == pairs[6].1@ + ".exe"@,
{
    let views = pair_views(pairs);
    assert(views.len() == 8);
    assert(pairs.len() == 8);
    assert(views[0] == (pairs[0].0@, pairs[0].1@));
    assert(views[1] == (pairs[1].0@, pairs[1].1@));
    assert(views[2] == (pairs[2].0@, pairs[2].1@));
    assert(views[3] == (pairs[3].0@, pairs[3].1@));
    assert(views[4] == (pairs[4].0@, pairs[4].1@));
    assert(views[5] == (pairs[5].0@, pairs[5].1@));
    assert(views[6] == (pairs[6].0@, pairs[6].1@));
    assert(views[7] == (pairs[7].0@, pairs[7].1@));
}

} // verus!


