//! On-disk format of a collection.
//!
//! Collections are stored either as a directory of TOML files
//! (`collection.toml` + one `.toml` per request) or in the OpenCollection
//! YAML format. The format is a per-collection property.

use vstd::prelude::*;

use crate::text::{chars_eq_str, chars_of};

verus! {

#[derive(Debug, Clone, Copy, PartialEq, Eq, Structural)]
pub enum CollectionFormat {
    /// Native layout: `collection.toml` + directory-per-request TOML.
    Broquest,
    /// OpenCollection: `opencollection.yml` (bundled or non-bundled tree).
    OpenCollection,
}

impl Default for CollectionFormat {
    fn default() -> (r: Self)
        ensures
            r == CollectionFormat::Broquest,
    {
        CollectionFormat::Broquest
    }
}

/// The text stored for a format in the database.
pub open spec fn format_db_text(f: CollectionFormat) -> Seq<char> {
    match f {
        CollectionFormat::Broquest => "broquest"@,
        CollectionFormat::OpenCollection => "opencollection"@,
    }
}

/// The format a stored text denotes; anything but `opencollection` (including
/// rows written before the format was stored) is the native format.
pub open spec fn format_from_db_text(s: Seq<char>) -> CollectionFormat {
    if s == "opencollection"@ {
        CollectionFormat::OpenCollection
    } else {
        CollectionFormat::Broquest
    }
}

impl CollectionFormat {
    /// Stable string used when persisting the format in the database.
    pub fn as_db_str(&self) -> (s: &'static str)
        ensures
            s@ == format_db_text(*self),
    {
        match self {
            CollectionFormat::Broquest => "broquest",
            CollectionFormat::OpenCollection => "opencollection",
        }
    }

    /// Parse the value stored in the database, defaulting to `Broquest` for
    /// legacy rows.
    pub fn from_db_str(value: &str) -> (f: CollectionFormat)
        ensures
            f == format_from_db_text(value@),
    {
        let v = chars_of(value);
        if chars_eq_str(v.as_slice(), "opencollection") {
            CollectionFormat::OpenCollection
        } else {
            CollectionFormat::Broquest
        }
    }
}

/// Storing a format and reading it back gives the same format.
pub proof fn lemma_format_db_roundtrip(f: CollectionFormat)
    ensures
        format_from_db_text(format_db_text(f)) == f,
{
    reveal_strlit("broquest");
    reveal_strlit("opencollection");
    assert("broquest"@.len() != "opencollection"@.len());
}

} // verus!
