//! Media files and their details as the site describes them.

use vstd::prelude::*;

verus! {

#[derive(Debug, Clone)]
pub struct Media {
    pub id: String,
    pub account_id: Option<String>,
    pub preview_id: Option<String>,
    pub price: Option<i64>,
    pub created_at: i64,
    pub deleted_at: Option<i64>,
    pub deleted: bool,
    pub details: Option<MediaDetails>,
    pub purchased: bool,
    pub whitelisted: bool,
    pub account_permission_flags: i64,
    pub access: bool,
    pub like_count: Option<i64>,
}

#[derive(Debug)]
pub struct PurchasedMedia {
    pub account_id: Option<String>,
    pub account_media_id: String,
    pub purchase_type: u8,
    pub created_at: u64,
    pub bundle_id: String,
}

#[derive(Debug, Clone)]
pub struct MediaDetails {
    pub id: String,
    pub media_type: i64,
    pub status: i64,
    pub account_id: Option<String>,
    pub mimetype: String,
    pub file_name: Option<String>,
    pub width: Option<i64>,
    pub height: Option<i64>,
    pub metadata: Option<String>,
    pub updated_at: Option<i64>,
    pub created_at: i64,
    pub variants: Vec<Variant>,
    pub locations: Vec<Location>,
}

#[derive(Debug, Clone)]
pub struct Location {
    pub location_id: String,
    pub location: String,
}

#[derive(Debug, Clone)]
pub struct Variant {
    pub id: String,
    pub variant_type: i64,
    pub status: i64,
    pub mimetype: String,
    pub filename: Option<String>,
    pub width: i64,
    pub height: i64,
    pub updated_at: Option<i64>,
    pub locations: Vec<Location>,
}

} // verus!
