//! The listing entry handed to the interface layer for one on-disk node:
//! its physical name, the display name recovered from it, and whether the
//! node is a directory.

use vstd::prelude::*;

use crate::names::{encoded_form, is_encoded_name, try_decode_name};

verus! {

/// One node of a directory listing.
pub struct FileEntry {
    /// Absolute path on disk.
    pub path: String,
    /// Display name: decoded if the physical name is encoded, otherwise the
    /// physical name itself.
    pub name: String,
    /// The actual name on disk.
    pub physical_name: String,
    pub is_directory: bool,
    /// Whether the physical name is a well-formed encoded form.
    pub is_encoded: bool,
    /// The decoded name when encoded, `None` otherwise.
    pub decoded_name: Option<String>,
    /// Whether the node can have children (it is a directory).
    pub has_children: bool,
}

/// Builds the entry for one node. The caller supplies what only the
/// filesystem knows (the path and whether the node is a directory); the
/// display name is computed from the physical name alone.
pub fn build_file_entry(path: String, physical_name: String, is_directory: bool) -> (r: FileEntry)
    ensures
        r.path@ == path@,
        r.physical_name@ == physical_name@,
        r.is_directory == is_directory,
        r.has_children == is_directory,
        r.is_encoded == is_encoded_name(physical_name@),
        r.is_encoded ==> (r.decoded_name matches Some(d) && d@ == r.name@ && physical_name@
            == encoded_form(r.name@)),
        !r.is_encoded ==> r.name@ == physical_name@ && r.decoded_name is None,
{
    match try_decode_name(physical_name.as_str()) {
        Some(d) => {
            proof {
                vstd::utf8::encode_utf8_valid_utf8(d@);
            }
            let shown = d.clone();
            FileEntry {
                path,
                name: shown,
                physical_name,
                is_directory,
                is_encoded: true,
                decoded_name: Some(d),
                has_children: is_directory,
            }
        },
        None => {
            let shown = physical_name.clone();
            FileEntry {
                path,
                name: shown,
                physical_name,
                is_directory,
                is_encoded: false,
                decoded_name: None,
                has_children: is_directory,
            }
        },
    }
}

} // verus!
