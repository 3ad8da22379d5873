//! The decisions of the Windows `.exe` bundle: which icon file is the
//! application icon, whether resources are embedded on this host, and
//! which resources the icon becomes.
use vstd::prelude::*;

verus! {

/// Resource type of a group icon (`RT_GROUP_ICON`).
pub const RESOURCE_TYPE_GROUP_ICON: u16 = 14;

/// Identifier of the application's group icon resource.
pub const APPLICATION_ICON_GROUP_RESOURCE_IDENTIFIER: u16 = 1;

/// Identifier of the first individual icon resource; the others follow.
pub const FIRST_INDIVIDUAL_ICON_RESOURCE_IDENTIFIER: u16 = 1;

/// What happens to the Windows resources of the copied executable.
#[derive(Debug)]
pub enum ResourceEmbedding {
    /// Icons and version information are written into the executable.
    EmbedWindowsResources,
    /// Nothing is written; this warning is shown instead.
    SkipWithWarning(String),
}

/// The warning shown where resources cannot be embedded.
pub open spec fn embedding_unavailable_warning() -> Seq<char> {
    "Windows PE resource embedding (icons, version information) is only performed when cargo-bundle itself is run on Windows."@
}

/// Resources are embedded only when the bundler itself runs on Windows; on
/// any other host the executable is still copied, without icon or version
/// information, and a warning says so.
pub fn embed_resources(windows_host: bool) -> (embedding: ResourceEmbedding)
    ensures
        windows_host ==> embedding is EmbedWindowsResources,
        !windows_host ==> (embedding matches ResourceEmbedding::SkipWithWarning(warning)
            && warning@ == embedding_unavailable_warning()),
{
    if windows_host {
        ResourceEmbedding::EmbedWindowsResources
    } else {
        ResourceEmbedding::SkipWithWarning(
            "Windows PE resource embedding (icons, version information) is only performed when cargo-bundle itself is run on Windows.".to_owned(),
        )
    }
}

/// The bytes of the extension `svg`.
pub open spec fn svg_extension() -> Seq<u8> {
    seq![0x73u8, 0x76u8, 0x67u8]
}

/// Whether an icon file, given by the bytes of its extension (none where
/// it has none or could not be listed), is an SVG file.
pub open spec fn is_svg_icon(extension: Option<Vec<u8>>) -> bool {
    extension matches Some(e) && e@ == svg_extension()
}

fn is_svg(extension: &Option<Vec<u8>>) -> (svg: bool)
    ensures
        svg == is_svg_icon(*extension),
{
    match extension {
        Some(e) => {
            if e.len() != 3 {
                return false;
            }
            let matches = e[0] == 0x73u8 && e[1] == 0x76u8 && e[2] == 0x67u8;
            assert(matches ==> e@ == svg_extension());
            matches
        },
        None => false,
    }
}

/// The position of the first SVG file among the icon files, each given by
/// the bytes of its extension: it becomes the application icon.
pub fn select_svg_icon(extensions: &Vec<Option<Vec<u8>>>) -> (found: Option<usize>)
    ensures
        match found {
            Some(i) => i < extensions@.len() && is_svg_icon(extensions@[i as int]) && forall|j: int|
                0 <= j < i ==> !is_svg_icon(#[trigger] extensions@[j]),
            None => forall|j: int| 0 <= j < extensions@.len() ==> !is_svg_icon(#[trigger] extensions@[j]),
        },
{
    let mut i: usize = 0;
    while i < extensions.len()
        invariant
            i <= extensions@.len(),
            forall|j: int| 0 <= j < i ==> !is_svg_icon(#[trigger] extensions@[j]),
        decreases extensions@.len() - i,
    {
        if is_svg(&extensions[i]) {
            return Some(i);
        }
        i = i + 1;
    }
    None
}

/// The square pixel sizes that the SVG icon is rendered at, smallest first.
pub open spec fn icon_pixel_sizes() -> Seq<u32> {
    seq![16u32, 24u32, 32u32, 48u32, 64u32, 96u32, 128u32, 256u32, 512u32]
}

/// One rendering of the application icon and the resource it is stored in.
#[derive(Clone, Copy, Debug, PartialEq, Eq, Structural)]
pub struct IconResource {
    /// Identifier of the icon resource.
    pub identifier: u16,
    /// Width and height of the rendering, in pixels.
    pub pixel_size: u32,
}

/// The icon resources written for an SVG icon: one per pixel size, in the
/// order of the sizes, numbered from the first icon identifier upwards.
pub fn icon_resource_layout() -> (layout: Vec<IconResource>)
    ensures
        layout@.len() == icon_pixel_sizes().len(),
        forall|k: int|
            0 <= k < layout@.len() ==> (#[trigger] layout@[k]).identifier
                == FIRST_INDIVIDUAL_ICON_RESOURCE_IDENTIFIER + k && layout@[k].pixel_size
                == icon_pixel_sizes()[k],
{
    let sizes: Vec<u32> = vec![16u32, 24u32, 32u32, 48u32, 64u32, 96u32, 128u32, 256u32, 512u32];
    assert(sizes@ == icon_pixel_sizes());
    let mut layout: Vec<IconResource> = Vec::new();
    let mut size_index: usize = 0;
    while size_index < sizes.len()
        invariant
            size_index <= sizes@.len(),
            sizes@ == icon_pixel_sizes(),
            layout@.len() == size_index,
            forall|k: int|
                0 <= k < layout@.len() ==> (#[trigger] layout@[k]).identifier
                    == FIRST_INDIVIDUAL_ICON_RESOURCE_IDENTIFIER + k && layout@[k].pixel_size
                    == icon_pixel_sizes()[k],
        decreases sizes@.len() - size_index,
    {
        let identifier: u16 = FIRST_INDIVIDUAL_ICON_RESOURCE_IDENTIFIER + size_index as u16;
        layout.push(IconResource { identifier, pixel_size: sizes[size_index] });
        size_index = size_index + 1;
    }
    layout
}

} // verus!
