//! Verified core of `nibble`, the Mysz project tool.
pub mod text;
pub mod manifest;
pub mod manifest_parse;
pub mod kdl_doc;
pub mod paths;
pub mod packages;
pub mod fetch;
pub mod linker;
pub mod out;
pub mod defaultfilename;
pub mod project;
pub mod recording;
