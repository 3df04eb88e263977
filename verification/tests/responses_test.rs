use gatherers::fansly::responses::inner::{GroupMessages, MessageGroups, Posts, Status, Subscriptions};
use gatherers::fansly::responses::{
    AccountsResponse, FanslyResponse, FollowedAccountsResponse, MediaBundleResponse, MediaResponse,
    MessageGroupsResponse, PostsResponse, StatusResponse, SubscriptionResponse,
};
use gatherers::fansly::structs::SubscriptionStats;

#[test]
fn response_accounts_test() {
    let r: AccountsResponse = FanslyResponse { response: Vec::new(), success: true };
    assert!(r.success);
    assert!(r.response.is_empty());
}

#[test]
fn response_subscription_test() {
    let r: SubscriptionResponse = FanslyResponse {
        response: Subscriptions {
            subscription_plans: Vec::new(),
            subscriptions: Vec::new(),
            stats: SubscriptionStats { total_active: 0, total_expired: 0, total: 0 },
        },
        success: true,
    };
    assert_eq!(r.response.stats.total, 0);
}

#[test]
fn response_status_test() {
    let r: StatusResponse = FanslyResponse {
        response: Status {
            account_id: "1".to_string(),
            status_id: Some(1),
            last_seen_at: 0,
            updated_at: 0,
        },
        success: true,
    };
    assert_eq!(r.response.status_id, Some(1));
}

#[test]
fn response_posts_test() {
    let r: PostsResponse = FanslyResponse {
        response: Posts {
            posts: None,
            aggregated_posts: None,
            account_media_bundles: None,
            account_media: None,
            tips: None,
            stories: None,
        },
        success: true,
    };
    assert!(r.response.posts.is_none());
}

#[test]
fn response_media_test() {
    let r: MediaResponse = FanslyResponse { response: Vec::new(), success: false };
    assert!(!r.success);
}

#[test]
fn response_media_bundle_test() {
    let r: MediaBundleResponse = FanslyResponse { response: Vec::new(), success: true };
    assert!(r.response.is_empty());
}

#[test]
fn response_followed_accounts_test() {
    let r: FollowedAccountsResponse = FanslyResponse { response: Vec::new(), success: true };
    assert!(r.response.is_empty());
}

#[test]
fn response_message_groups_test() {
    let r: MessageGroupsResponse = FanslyResponse {
        response: MessageGroups { groups: Vec::new() },
        success: true,
    };
    assert!(r.response.groups.is_empty());
    let g = GroupMessages { messages: Vec::new(), account_media: Vec::new() };
    assert!(g.messages.is_empty());
}
