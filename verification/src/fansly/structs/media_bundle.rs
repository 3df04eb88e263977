//! Bundles of media.

use vstd::prelude::*;

verus! {

#[derive(Debug)]
pub struct MediaBundle {
    pub id: String,
    pub account_id: Option<String>,
    pub preview_id: Option<String>,
    pub permission_flags: i64,
    pub price: i64,
    pub created_at: i64,
    pub deleted_at: Option<i64>,
    pub deleted: bool,
    pub account_media_ids: Vec<String>,
    pub bundle_content: Vec<BundleContent>,
    pub purchased: bool,
    pub whitelisted: bool,
    pub account_permission_flags: i64,
    pub access: bool,
}

#[derive(Debug)]
pub struct BundleContent {
    pub account_media_id: String,
    pub pos: i64,
}

} // verus!
