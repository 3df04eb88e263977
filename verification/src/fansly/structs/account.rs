//! Accounts as the site describes them.

use vstd::prelude::*;

use super::media::Media;

verus! {

#[derive(Debug)]
pub struct Account {
    pub id: String,
    pub username: String,
    pub display_name: Option<String>,
    pub flags: i64,
    pub version: i64,
    pub created_at: i64,
    pub follow_count: i64,
    pub subscriber_count: i64,
    pub timeline_stats: Option<TimelineStats>,
    pub status_id: i64,
    pub last_seen_at: i64,
    pub profile_access_flags: i64,
    pub profile_flags: i64,
    pub location: Option<String>,
    pub subscription_tiers: Option<Vec<SubscriptionTier>>,
    pub avatar: Option<Media>,
    pub banner: Option<Media>,
    pub post_likes: i64,
    pub account_media_likes: i64,
    pub profile_access: bool,
    pub walls: Option<Vec<Wall>>,
    pub pinned_posts: Option<Vec<PinnedPost>>,
}

#[derive(Debug)]
pub struct FollowedAccount {
    pub account_id: String,
    pub status: i64,
    pub story_count: i64,
    pub version: i64,
    pub created_at: i64,
    pub updated_at: i64,
}

#[derive(Debug)]
pub struct Avatar {
    pub id: String,
    pub avatar_type: i64,
    pub status: i64,
    pub account_id: String,
    pub mimetype: String,
    pub filename: String,
    pub width: i64,
    pub height: i64,
    pub metadata: String,
    pub updated_at: i64,
    pub created_at: i64,
    pub variants: Vec<Variant>,
    pub locations: Vec<Location>,
}

#[derive(Debug)]
pub struct Location {
    pub location_id: String,
    pub location: String,
}

#[derive(Debug)]
pub struct Variant {
    pub id: String,
    pub variant_type: i64,
    pub status: i64,
    pub mimetype: String,
    pub filename: String,
    pub width: i64,
    pub height: i64,
    pub updated_at: i64,
    pub locations: Vec<Location>,
}

#[derive(Debug)]
pub struct PinnedPost {
    pub post_id: String,
    pub account_id: String,
    pub pos: Option<i64>,
    pub created_at: i64,
}

#[derive(Debug)]
pub struct SubscriptionTier {
    pub id: String,
    pub account_id: String,
    pub name: String,
    pub color: String,
    pub pos: i64,
    pub price: i64,
    pub subscription_benefits: Vec<String>,
    pub plans: Vec<Plan>,
}

#[derive(Debug)]
pub struct Plan {
    pub id: String,
    pub status: i64,
    pub billing_cycle: i64,
    pub price: i64,
    pub use_amounts: i64,
    pub promos: Vec<Promo>,
}

#[derive(Debug)]
pub struct Promo {
    pub id: String,
    pub status: i64,
    pub price: i64,
    pub duration: i64,
    pub max_uses: i64,
    pub max_uses_before: Option<i64>,
    pub new_subscribers_only: i64,
    pub starts_at: i64,
    pub ends_at: i64,
}

#[derive(Debug)]
pub struct TimelineStats {
    pub account_id: String,
    pub image_count: i32,
    pub video_count: i32,
    pub bundle_count: i32,
    pub bundle_image_count: i32,
    pub bundle_video_count: i32,
    pub fetched_at: i64,
}

#[derive(Debug)]
pub struct Wall {
    pub id: String,
    pub account_id: String,
    pub name: String,
    pub description: Option<String>,
    pub metadata: String,
}

} // verus!
