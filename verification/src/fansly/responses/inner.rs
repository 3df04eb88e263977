//! The payloads of the site's responses.

use vstd::prelude::*;

use crate::text::{decimal_seq, string_of, u64_decimal};
use crate::fansly::structs::{
    Media, Message, MessageGroup, Post, Story, Subscription, SubscriptionPlan, SubscriptionStats,
};

verus! {

#[derive(Debug)]
pub struct Subscriptions {
    pub subscription_plans: Vec<SubscriptionPlan>,
    pub subscriptions: Vec<Subscription>,
    pub stats: SubscriptionStats,
}

#[derive(Debug)]
pub struct PurchasedContent {
    pub account_media_orders: Vec<String>,
}

#[derive(Debug)]
pub struct Status {
    pub account_id: String,
    pub status_id: Option<i8>,
    pub last_seen_at: i64,
    pub updated_at: i64,
}

/// A page of an account's timeline.
#[derive(Debug)]
pub struct Posts {
    pub posts: Option<Vec<Post>>,
    pub aggregated_posts: Option<Vec<Post>>,
    pub account_media_bundles: Option<Vec<Media>>,
    pub account_media: Option<Vec<Media>>,
    pub tips: Option<Vec<String>>,
    pub stories: Option<Vec<Story>>,
}

/// The number of posts a page lists, none when it lists no posts.
pub open spec fn page_post_count(page: Posts) -> nat {
    match page.posts {
        Some(v) => v@.len(),
        None => 0,
    }
}

impl Posts {
    /// The page written for logs: `Posts { posts: <number of posts>, .. }`.
    pub fn debug_text(&self) -> (s: String)
        ensures
            s@ == "Posts { posts: "@ + decimal_seq(page_post_count(*self)) + ", .. }"@,
    {
        let n: usize = match &self.posts {
            Some(v) => v.len(),
            None => 0,
        };
        let mut s = "Posts { posts: ".to_owned();
        let d = string_of(u64_decimal(n as u64).as_slice());
        s.append(d.as_str());
        s.append(", .. }");
        s
    }
}

#[derive(Debug)]
pub struct MessageGroups {
    pub groups: Vec<MessageGroup>,
}

#[derive(Debug)]
pub struct GroupMessages {
    pub messages: Vec<Message>,
    pub account_media: Vec<Media>,
}

} // verus!
