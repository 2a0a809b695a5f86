//! Stored shapes and access levels of the on-chain package system, with
//! the verified conversions between the numeric and textual access forms.

use vstd::prelude::*;

verus! {

/// access level: everyone may read the package
pub const ACCESS_PUBLIC: u8 = 0;

/// access level: only owners may read the package
pub const ACCESS_OWNERS: u8 = 1;

/// access level: cleared holders may read the package
pub const ACCESS_CLEARED: u8 = 2;

/// stored raw data on chain
pub struct StoredRawData {
    /// data bytes
    pub bytes: Vec<u8>,
    /// mime-type of the data, default image/svg+xml
    pub content_type: Option<String>,
    /// encoding of the data, default gzip
    pub content_encoding: Option<String>,
    /// optional metadata
    pub metadata: Option<String>,
}

/// a version of a package
pub struct StoredPackageVersion {
    /// package data
    pub data: StoredRawData,
    /// tags for this package
    pub tags: Option<Vec<String>>,
    /// optional metadata
    pub metadata: Option<String>,
    /// indicates access type for package:
    /// public = 0, owners = 1, cleared = 2
    pub access: u8,
}

/// package version info without data
pub struct PackageVersionInfo {
    /// package version index in the package store
    pub index: u32,
    /// tags for this package
    pub tags: Option<Vec<String>>,
    /// optional metadata
    pub metadata: Option<String>,
    /// indicates if package version is public
    pub access: String,
}

/// an access byte that names no access level
#[derive(Clone, Copy, PartialEq, Eq, Structural, Debug)]
pub enum AccessError {
    InvalidAccess,
}

/// The textual form of an access byte.
pub fn access_val_to_string(access: u8) -> (r: Result<String, AccessError>)
    ensures
        match r {
            Ok(s) => (access == ACCESS_PUBLIC && s@ == "public"@) || (access == ACCESS_OWNERS && s@
                == "owners"@) || (access == ACCESS_CLEARED && s@ == "cleared"@),
            Err(_) => access > ACCESS_CLEARED,
        },
{
    if access == ACCESS_PUBLIC {
        Ok("public".to_owned())
    } else if access == ACCESS_OWNERS {
        Ok("owners".to_owned())
    } else if access == ACCESS_CLEARED {
        Ok("cleared".to_owned())
    } else {
        Err(AccessError::InvalidAccess)
    }
}

/// The access byte of a textual access level.
pub fn access_string_to_val(access: String) -> (r: Result<u8, AccessError>)
    ensures
        match r {
            Ok(v) => (v == ACCESS_PUBLIC && access@ == "public"@) || (v == ACCESS_OWNERS && access@
                == "owners"@) || (v == ACCESS_CLEARED && access@ == "cleared"@),
            Err(_) => access@ != "public"@ && access@ != "owners"@ && access@ != "cleared"@,
        },
{
    if access.eq(&"public".to_owned()) {
        Ok(ACCESS_PUBLIC)
    } else if access.eq(&"owners".to_owned()) {
        Ok(ACCESS_OWNERS)
    } else if access.eq(&"cleared".to_owned()) {
        Ok(ACCESS_CLEARED)
    } else {
        Err(AccessError::InvalidAccess)
    }
}

} // verus!
