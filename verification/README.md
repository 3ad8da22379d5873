# cargo_bundle

The verified core of an application bundler: the decisions of a bundling
run and the Windows version resource that goes into a bundled `.exe`.

- `src/bundle.rs`: which bundler runs next, when a run stops, and what it
  returns, as steps that a driver follows (`bundle_project`, `resume`).
- `src/exe_bundle.rs`: the `.exe` bundle's decisions: the application icon
  among the icon files, whether resources are embedded on this host, and the
  icon resources an SVG icon becomes.
- `src/text.rs`: UTF-16 little-endian, NUL-terminated text.
- `src/version_string.rs`: packing a version string into 64 bits.
- `src/version_info.rs`: the nodes of `VS_VERSIONINFO`, its string and
  variable file information and its fixed file information.
- `src/version_resource.rs`: the whole version resource from an
  executable's metadata.
- `app/`: the driver: running bundlers, copying files, rendering the SVG
  icon and writing resources into the executable on Windows.
