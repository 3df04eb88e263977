//! Posts of an account and what they carry.

use vstd::prelude::*;

verus! {

#[derive(Debug)]
pub struct AccountMedia {
    pub id: String,
    pub account_id: String,
    pub permission_flags: i64,
    pub price: i64,
    pub created_at: i64,
    pub deleted_at: Option<i64>,
    pub deleted: bool,
    pub media: Option<Avatar>,
    pub like_count: Option<i64>,
    pub purchased: bool,
    pub whitelisted: bool,
    pub account_permission_flags: i64,
    pub access: bool,
    pub preview: Option<Avatar>,
    pub account_media_ids: Option<Vec<String>>,
    pub bundle_content: Option<Vec<BundleContent>>,
}

#[derive(Debug)]
pub struct BundleContent {
    pub account_media_id: String,
    pub pos: i64,
}

#[derive(Debug)]
pub struct Avatar {
    pub id: String,
    pub avatar_type: i64,
    pub status: i64,
    pub account_id: String,
    pub mimetype: String,
    pub filename: String,
    pub width: i64,
    pub height: i64,
    pub metadata: String,
    pub updated_at: i64,
    pub created_at: i64,
    pub variants: Vec<Variant>,
    pub variant_hash: VariantHash,
    pub locations: Vec<Location>,
}

#[derive(Debug)]
pub struct Location {
    pub location_id: String,
    pub location: String,
}

#[derive(Debug)]
pub struct VariantHash {}

#[derive(Debug)]
pub struct Variant {
    pub id: String,
    pub variant_type: i64,
    pub status: i64,
    pub mimetype: String,
    pub filename: String,
    pub width: i64,
    pub height: i64,
    pub updated_at: i64,
    pub locations: Vec<Location>,
}

#[derive(Debug)]
pub struct AccountElement {
    pub id: String,
    pub username: String,
    pub display_name: String,
    pub flags: i64,
    pub version: i64,
    pub created_at: i64,
    pub follow_count: i64,
    pub subscriber_count: i64,
    pub timeline_stats: TimelineStats,
    pub status_id: i64,
    pub last_seen_at: i64,
    pub walls: Vec<Wall>,
    pub profile_access_flags: i64,
    pub profile_flags: i64,
    pub about: String,
    pub location: String,
    pub pinned_posts: Vec<PinnedPost>,
    pub following: bool,
    pub subscribed: bool,
    pub subscription: Subscription,
    pub subscription_tiers: Vec<SubscriptionTier>,
    pub banner: Avatar,
    pub avatar: Avatar,
    pub post_likes: i64,
    pub account_media_likes: i64,
    pub profile_access: bool,
}

#[derive(Debug)]
pub struct PurpleAccountPermissionFlags {
    pub flags: i64,
}

#[derive(Debug)]
pub struct PinnedPost {
    pub post_id: String,
    pub account_id: String,
    pub pos: i64,
    pub created_at: i64,
}

#[derive(Debug)]
pub struct Subscription {
    pub id: String,
    pub account_id: String,
    pub subscription_tier_id: String,
    pub subscription_tier_name: String,
    pub subscription_tier_color: String,
    pub plan_id: String,
    pub promo_id: String,
    pub gift_code_id: Option<String>,
    pub status: i64,
    pub price: i64,
    pub renew_price: i64,
    pub renew_correlation_id: String,
    pub auto_renew: i64,
    pub billing_cycle: i64,
    pub duration: i64,
    pub renew_date: i64,
    pub created_at: i64,
    pub updated_at: i64,
    pub ends_at: i64,
    pub promo_price: Option<i64>,
    pub promo_duration: Option<i64>,
    pub promo_status: Option<i64>,
    pub promo_starts_at: Option<i64>,
    pub promo_ends_at: Option<i64>,
}

#[derive(Debug)]
pub struct SubscriptionTier {
    pub id: String,
    pub account_id: String,
    pub name: String,
    pub color: String,
    pub pos: i64,
    pub price: i64,
    pub subscription_benefits: Vec<String>,
    pub plans: Vec<Plan>,
}

#[derive(Debug)]
pub struct Plan {
    pub id: String,
    pub status: i64,
    pub billing_cycle: i64,
    pub price: i64,
    pub use_amounts: i64,
    pub promos: Vec<Promo>,
    pub uses: i64,
}

#[derive(Debug)]
pub struct Promo {
    pub id: String,
    pub status: i64,
    pub price: i64,
    pub duration: i64,
    pub max_uses: i64,
    pub max_uses_before: Option<i64>,
    pub new_subscribers_only: i64,
    pub starts_at: i64,
    pub ends_at: i64,
    pub uses: i64,
}

#[derive(Debug)]
pub struct TimelineStats {
    pub account_id: String,
    pub image_count: i64,
    pub video_count: i64,
    pub bundle_count: i64,
    pub bundle_image_count: i64,
    pub bundle_video_count: i64,
    pub fetched_at: i64,
}

#[derive(Debug)]
pub struct Wall {
    pub id: String,
    pub account_id: String,
    pub name: String,
    pub description: String,
    pub metadata: String,
}

#[derive(Debug)]
pub struct Post {
    pub id: String,
    pub account_id: String,
    pub content: String,
    pub in_reply_to: Option<i64>,
    pub in_reply_to_root: Option<i64>,
    pub created_at: i64,
    pub expires_at: Option<i64>,
    pub attachments: Vec<Attachment>,
    pub like_count: i64,
    pub media_like_count: i64,
    pub total_tip_amount: i64,
    pub attachment_tip_amount: i64,
    pub account_mentions: Vec<Option<String>>,
    pub reply_count: Option<i64>,
    pub liked: Option<bool>,
}

#[derive(Debug)]
pub struct Attachment {
    pub pos: String,
    pub content_type: i64,
    pub content_id: Option<String>,
}

} // verus!
