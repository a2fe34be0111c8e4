//! Static assets as this core classifies them: a location, a kind
//! derived from the file extension, and the matching MIME type. Reading
//! files and caching them is the I/O layer's affair.

pub mod loc;

use vstd::prelude::*;

pub use self::loc::Loc;

verus! {

use crate::codec::str_eq;

/// A loaded asset: its kind and its raw bytes.
#[derive(Debug, Clone)]
pub struct Asset {
    pub kind: AssetKind,
    pub data: Vec<u8>,
}

/// What kind of asset a file is, by extension.
#[derive(Debug, Clone, Copy, PartialEq, Eq, Structural)]
pub enum AssetKind {
    Unknown,
    Json,
    Css,
    JavaScript,
}

impl Default for AssetKind {
    /// Files of no recognised extension are served as opaque bytes.
    fn default() -> (r: Self)
        ensures
            r == AssetKind::Unknown,
    {
        AssetKind::Unknown
    }
}

impl AssetKind {
    /// Classifies a file by its extension; anything unrecognised,
    /// including a missing extension, is unknown.
    pub fn from_extension(extension: Option<&str>) -> (r: Self)
        ensures
            r == (match extension {
                Some(e) => if e@ == "css"@ {
                    AssetKind::Css
                } else if e@ == "js"@ {
                    AssetKind::JavaScript
                } else if e@ == "json"@ {
                    AssetKind::Json
                } else {
                    AssetKind::Unknown
                },
                None => AssetKind::Unknown,
            }),
    {
        match extension {
            Some(e) => if str_eq(e, "css") {
                AssetKind::Css
            } else if str_eq(e, "js") {
                AssetKind::JavaScript
            } else if str_eq(e, "json") {
                AssetKind::Json
            } else {
                AssetKind::Unknown
            },
            None => AssetKind::Unknown,
        }
    }

    /// The MIME type an asset of this kind is served under.
    pub fn mime_type(&self) -> (r: &'static str)
        ensures
            r@ == (match self {
                AssetKind::Unknown => "application/octet-stream"@,
                AssetKind::Json => "application/json"@,
                AssetKind::Css => "text/css"@,
                AssetKind::JavaScript => "text/javascript"@,
            }),
    {
        match self {
            AssetKind::Unknown => "application/octet-stream",
            AssetKind::Json => "application/json",
            AssetKind::Css => "text/css",
            AssetKind::JavaScript => "text/javascript",
        }
    }
}

} // verus!
