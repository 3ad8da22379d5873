pub mod bundle;
pub mod exe_bundle;
pub mod text;
pub mod version_info;
pub mod version_resource;
pub mod version_string;
