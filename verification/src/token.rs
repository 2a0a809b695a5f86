//! Stored token-metadata shapes, as the surrounding NFT system persists
//! them. Only the plain stored forms live here; the humanized twins with
//! host-runtime types stay with the host.

use vstd::prelude::*;

use crate::nfp::StoredRawData;

verus! {

/// token metadata
pub struct StoredMetadata {
    /// optional uri for off-chain metadata
    pub token_uri: Option<String>,
    /// optional on-chain metadata
    pub extension: Option<StoredExtension>,
}

/// metadata extension
pub struct StoredExtension {
    /// url to the image
    pub image: Option<String>,
    /// raw SVG image data
    pub image_data: Option<String>,
    /// url to allow users to view the item on your site
    pub external_url: Option<String>,
    /// item description
    pub description: Option<String>,
    /// name of the item
    pub name: Option<String>,
    /// item attributes
    pub attributes: Option<Vec<Trait>>,
    /// background color represented as a six-character hexadecimal without
    /// a pre-pended #
    pub background_color: Option<String>,
    /// url to a multimedia attachment
    pub animation_url: Option<String>,
    /// url to a YouTube video
    pub youtube_url: Option<String>,
    /// media files with basic authentication and decryption keys
    pub media: Option<Vec<MediaFile>>,
    /// a select list of trait_types that are in the private metadata
    pub protected_attributes: Option<Vec<String>>,
    /// token subtypes used for display groupings
    pub token_subtype: Option<String>,
    /// raw data stored on chain
    pub raw_data: Option<Vec<StoredRawData>>,
}

/// attribute trait
pub struct Trait {
    /// indicates how a trait should be displayed
    pub display_type: Option<String>,
    /// name of the trait
    pub trait_type: Option<String>,
    /// trait value
    pub value: String,
    /// optional max value for numerical traits
    pub max_value: Option<String>,
}

/// media file
pub struct MediaFile {
    /// file type
    pub file_type: Option<String>,
    /// file extension
    pub extension: Option<String>,
    /// authentication information
    pub authentication: Option<Authentication>,
    /// url to the file
    pub url: String,
}

/// media file authentication
pub struct Authentication {
    /// either a decryption key for encrypted files or a password for basic
    /// authentication
    pub key: Option<String>,
    /// username used in basic authentication
    pub user: Option<String>,
}

} // verus!
