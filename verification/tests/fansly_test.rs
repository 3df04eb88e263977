use gatherers::fansly::client::{
    account_stories_url, accounts_by_ids_url, accounts_by_names_url, followed_account_ids,
    followed_accounts_url, gatherer_media_from, gatherer_media_from_stories, group_messages_step,
    group_messages_url, media_bundles_url, media_urls, paid_transactions, profile_media,
    subscribed_account_ids, subscription_threads, timeline_step, timeline_url, transaction_receiver_ids,
    transaction_totals, transactions_page_step, wallet_transactions_url, MEDIA_URL,
};
use gatherers::fansly::gatherer::{
    combine_subs_and_account_info, fansly_media_to_gatherers_media, matched_dates_fit, media_from_details,
    to_gatherer_media,
};
use gatherers::fansly::ids::{
    account_media_ids_of_pages, attachment_ids_of_pages, bundle_ids_of_pages, media_ids_for_posts,
    media_ids_of_bundles, message_attachment_ids, purchased_media_ids, sorted_unique, story_content_ids,
};
use gatherers::fansly::responses::inner::Posts;
use gatherers::fansly::structs::account::TimelineStats;
use gatherers::fansly::structs::media::Location;
use gatherers::fansly::structs::message::MessageUser;
use gatherers::fansly::structs::subscription::SubscriptionStatus;
use gatherers::fansly::structs::{
    Account, Attachment, FollowedAccount, Media, MediaBundle, MediaDetails, Message, MessageGroup, Post,
    PurchasedMedia, Story, Subscription, WalletTransaction,
};
use gatherers::fansly::{FanslyConfig, GATHERER_NAME};
use gatherers::gatherers::{timestamp_fits, DateTime, GathererErrors, SubscriptionCost};

fn details(id: &str, file_name: Option<&str>, mimetype: &str, locations: &[&str]) -> MediaDetails {
    MediaDetails {
        id: id.to_string(),
        media_type: 1,
        status: 1,
        account_id: None,
        mimetype: mimetype.to_string(),
        file_name: file_name.map(|f| f.to_string()),
        width: None,
        height: None,
        metadata: None,
        updated_at: None,
        created_at: 0,
        variants: Vec::new(),
        locations: locations
            .iter()
            .map(|l| Location { location_id: "1".to_string(), location: l.to_string() })
            .collect(),
    }
}

fn fmedia(id: &str, details: Option<MediaDetails>, purchased: bool) -> Media {
    Media {
        id: id.to_string(),
        account_id: None,
        preview_id: None,
        price: None,
        created_at: 0,
        deleted_at: None,
        deleted: false,
        details,
        purchased,
        whitelisted: false,
        account_permission_flags: 0,
        access: true,
        like_count: None,
    }
}

fn account(id: &str, username: &str, stats: Option<(i32, i32, i32)>) -> Account {
    Account {
        id: id.to_string(),
        username: username.to_string(),
        display_name: None,
        flags: 0,
        version: 0,
        created_at: 0,
        follow_count: 0,
        subscriber_count: 0,
        timeline_stats: stats.map(|(v, i, b)| TimelineStats {
            account_id: id.to_string(),
            image_count: i,
            video_count: v,
            bundle_count: b,
            bundle_image_count: 0,
            bundle_video_count: 0,
            fetched_at: 0,
        }),
        status_id: 0,
        last_seen_at: 0,
        profile_access_flags: 0,
        profile_flags: 0,
        location: None,
        subscription_tiers: None,
        avatar: None,
        banner: None,
        post_likes: 0,
        account_media_likes: 0,
        profile_access: true,
        walls: None,
        pinned_posts: None,
    }
}

fn fsub(account_id: &str, status: i64, tier: Option<&str>) -> Subscription {
    Subscription {
        id: format!("s{}", account_id),
        account_id: account_id.to_string(),
        subscription_tier_id: "t".to_string(),
        subscription_tier_name: tier.map(|t| t.to_string()),
        subscription_tier_color: None,
        plan_id: "p".to_string(),
        promo_id: None,
        status,
        price: 999,
        renew_price: 999,
        renew_correlation_id: "c".to_string(),
        auto_renew: 1,
        billing_cycle: 30,
        duration: 30,
        renew_date: 2000,
        created_at: 1000,
        updated_at: 1000,
        ends_at: 3000,
        promo_price: None,
        promo_duration: None,
        promo_status: None,
        promo_starts_at: None,
        promo_ends_at: None,
    }
}

fn post(id: &str, attachment_ids: &[&str]) -> Post {
    Post {
        id: id.to_string(),
        account_id: "a".to_string(),
        content: String::new(),
        in_reply_to: None,
        in_reply_to_root: None,
        created_at: 0,
        expires_at: None,
        attachments: attachment_ids
            .iter()
            .map(|c| Attachment { pos: "0".to_string(), content_type: 1, content_id: Some(c.to_string()) })
            .collect(),
        like_count: 0,
        media_like_count: 0,
        total_tip_amount: 0,
        attachment_tip_amount: 0,
        account_mentions: Vec::new(),
        reply_count: None,
        liked: None,
    }
}

fn page(posts: Option<Vec<Post>>, bundles: Option<Vec<Media>>, media: Option<Vec<Media>>) -> Posts {
    Posts { posts, aggregated_posts: None, account_media_bundles: bundles, account_media: media, tips: None, stories: None }
}

fn bundle(id: &str, media_ids: &[&str]) -> MediaBundle {
    MediaBundle {
        id: id.to_string(),
        account_id: None,
        preview_id: None,
        permission_flags: 0,
        price: 0,
        created_at: 0,
        deleted_at: None,
        deleted: false,
        account_media_ids: media_ids.iter().map(|m| m.to_string()).collect(),
        bundle_content: Vec::new(),
        purchased: false,
        whitelisted: false,
        account_permission_flags: 0,
        access: true,
    }
}

fn message(id: &str, created_at: i64, attachment_ids: &[&str]) -> Message {
    Message {
        id: id.to_string(),
        group_id: "g".to_string(),
        sender_id: "s".to_string(),
        message_type: None,
        content: String::new(),
        created_at,
        attachments: attachment_ids
            .iter()
            .map(|c| Attachment { pos: "0".to_string(), content_type: 1, content_id: Some(c.to_string()) })
            .collect(),
        likes: Vec::new(),
        total_tip_amount: 0,
    }
}

fn group(id: &str, users: &[&str]) -> MessageGroup {
    MessageGroup {
        id: id.to_string(),
        message_group_type: 1,
        group_flags: 0,
        created_by: "x".to_string(),
        users: users
            .iter()
            .map(|u| MessageUser { group_id: id.to_string(), user_id: u.to_string(), user_type: 1 })
            .collect(),
        recipients: Vec::new(),
    }
}

fn wallet(status: i64, amount: i64, receiver: Option<&str>) -> WalletTransaction {
    WalletTransaction {
        wallet_id: "w".to_string(),
        transaction_id: "t".to_string(),
        account_id: "me".to_string(),
        correlation_id: "c".to_string(),
        datum_type: 1,
        destination: 1,
        amount,
        destination_tax: 0,
        destination_amount: None,
        new_balance: 0,
        created_at: 0,
        updated_at: None,
        status,
        sender_id: None,
        receiver_id: receiver.map(|r| r.to_string()),
    }
}

fn strings(v: &[&str]) -> Vec<String> {
    v.iter().map(|s| s.to_string()).collect()
}

#[test]
fn to_gatherer_media_names_file_by_id_and_extension() {
    let m = fmedia("m1", Some(details("d1", Some("photo.jpg"), "image/jpeg", &["https://c/1", "https://c/2"])), true);
    let g = to_gatherer_media(m, "alice").unwrap();
    assert_eq!(g.file_name, "m1.jpg");
    assert_eq!(g.url, "https://c/1");
    assert_eq!(g.mime_type, "image/jpeg");
    assert!(g.paid);
    assert_eq!(g.user_name, "alice");

    let m = fmedia("m2", Some(details("d2", None, "image/jpeg", &["https://c/3"])), false);
    let g = to_gatherer_media(m, "alice").unwrap();
    assert_eq!(g.file_name, "m2");
    assert!(!g.paid);
}

#[test]
fn to_gatherer_media_unavailable_content() {
    let e = to_gatherer_media(fmedia("m1", None, false), "alice").unwrap_err();
    assert!(e.message.starts_with("Content not available: "));
    let e = to_gatherer_media(fmedia("m1", Some(details("d", Some("a.png"), "image/png", &[])), false), "a").unwrap_err();
    assert!(e.message.starts_with("Content not available: "));
}

#[test]
fn fansly_media_to_gatherers_media_file_names() {
    let m = fmedia("m1", Some(details("d1", Some("clip.mp4"), "video/mp4", &["https://c/1"])), false);
    let g = fansly_media_to_gatherers_media(m, "bob").unwrap();
    assert_eq!(g.file_name, "clip.mp4");
    assert_eq!(g.user_name, "bob");

    let m = fmedia("m1", Some(details("d1", Some(""), "video/mp4", &["https://c/1"])), false);
    assert_eq!(fansly_media_to_gatherers_media(m, "bob").unwrap().file_name, "d1.mp4");

    let m = fmedia("m1", Some(details("d9", None, "image/jpeg", &["https://c/1"])), true);
    let g = fansly_media_to_gatherers_media(m, "bob").unwrap();
    assert_eq!(g.file_name, "d9.jpeg");
    assert!(g.paid);

    assert!(fansly_media_to_gatherers_media(fmedia("m1", None, false), "bob").is_none());
    let m = fmedia("m1", Some(details("d1", Some("x.jpg"), "image/jpeg", &[])), false);
    assert!(fansly_media_to_gatherers_media(m, "bob").is_none());
}

#[test]
fn combine_subs_and_account_info_matches_accounts() {
    let subs = vec![fsub("a1", 3, Some("Gold")), fsub("missing", 3, None), fsub("a2", 3, None)];
    let accounts = vec![account("a2", "bob", None), account("a1", "alice", Some((4, 5, 6)))];
    let r = combine_subs_and_account_info(&subs, &accounts);
    assert_eq!(r.len(), 2);
    assert_eq!(r[0].id, "a1");
    assert_eq!(r[0].name.username, "alice");
    assert_eq!(r[0].plan, "Gold");
    assert_eq!(r[0].video_count, 4);
    assert_eq!(r[0].image_count, 5);
    assert_eq!(r[0].bundle_count, 6);
    assert_eq!(r[0].started.unwrap().0, Some(1000));
    assert_eq!(r[0].renewal_date.unwrap().0, Some(2000));
    assert_eq!(r[0].ends_at.unwrap().0, Some(3000));
    assert_eq!(r[0].rewewal_price.0, Some(999));
    assert_eq!(r[1].name.username, "bob");
    assert_eq!(r[1].plan, "Unknown");
    assert_eq!(r[1].video_count, 0);
    assert_eq!(r[1].started.unwrap().display_text(), DateTime(Some(1000)).display_text());
    assert_eq!(r[1].rewewal_price.display_text(), SubscriptionCost(Some(999)).display_text());
}

#[test]
fn sorted_unique_sorts_and_dedups() {
    let r = sorted_unique(&strings(&["b", "a", "c", "a", "ab", "b"]));
    assert_eq!(r, strings(&["a", "ab", "b", "c"]));
    assert_eq!(sorted_unique(&r), r);
    assert!(sorted_unique(&Vec::new()).is_empty());
}

#[test]
fn media_ids_of_timeline_pages() {
    let pages = vec![
        page(Some(vec![post("p1", &["m3", "m1"]), post("p2", &["m2"])]), Some(vec![fmedia("b1", None, false)]), Some(vec![fmedia("m4", None, false)])),
        page(None, None, Some(vec![fmedia("m1", None, false)])),
    ];
    assert_eq!(attachment_ids_of_pages(&pages), strings(&["m3", "m1", "m2"]));
    assert_eq!(bundle_ids_of_pages(&pages), strings(&["b1"]));
    assert_eq!(account_media_ids_of_pages(&pages), strings(&["m4", "m1"]));
    let bundles = vec![bundle("b1", &["m5", "m3"])];
    assert_eq!(media_ids_of_bundles(&bundles), strings(&["m5", "m3"]));
    assert_eq!(media_ids_for_posts(&pages, &bundles), strings(&["m1", "m2", "m3", "m4", "m5"]));
}

#[test]
fn media_ids_of_messages_stories_purchases() {
    let msgs = vec![message("1", 10, &["x", "y"]), message("2", 20, &[]), message("3", 30, &["z"])];
    assert_eq!(message_attachment_ids(&msgs), strings(&["x", "y", "z"]));
    let stories = vec![
        Story { id: "s".to_string(), account_id: None, content_type: None, content_id: Some("c1".to_string()), created_at: 0, updated_at: 0 },
        Story { id: "t".to_string(), account_id: None, content_type: None, content_id: None, created_at: 0, updated_at: 0 },
    ];
    assert_eq!(story_content_ids(&stories), strings(&["c1", ""]));
    let purchased = vec![PurchasedMedia {
        account_id: None,
        account_media_id: "pm".to_string(),
        purchase_type: 1,
        created_at: 0,
        bundle_id: "b".to_string(),
    }];
    assert_eq!(purchased_media_ids(&purchased), strings(&["pm"]));
}

#[test]
fn endpoint_urls() {
    assert_eq!(
        accounts_by_ids_url(&strings(&["1", "2"])),
        "https://apiv2.fansly.com/api/v1/account?ids=1,2"
    );
    assert_eq!(
        accounts_by_names_url(&strings(&["alice"])),
        "https://apiv2.fansly.com/api/v1/account?usernames=alice"
    );
    assert_eq!(
        media_bundles_url(&strings(&["b1", "b2", "b3"])),
        "https://apiv2.fansly.com/api/v1/account/media/bundle?ids=b1,b2,b3"
    );
    assert_eq!(followed_accounts_url(), "https://apiv2.fansly.com/api/v1/account/media/bundle?limit=100&offset=0");
    assert_eq!(account_stories_url("42"), "https://apiv2.fansly.com/api/v1/mediastories?accountId=42");
    assert_eq!(timeline_url("42", "0"), "https://apiv2.fansly.com/api/v1/timeline/42?before=0&after=0");
    assert_eq!(group_messages_url("g1", None), "https://apiv2.fansly.com/api/v1/message?groupId=g1&limit=50");
    assert_eq!(
        group_messages_url("g1", Some(-17)),
        "https://apiv2.fansly.com/api/v1/message?groupId=g1&limit=50&before=-17"
    );
    assert_eq!(
        wallet_transactions_url(20),
        "/api/v1/account/wallets/transactions?before=&after=&limit=10&offset=20"
    );
}

#[test]
fn media_urls_in_hundreds() {
    assert!(media_urls(&Vec::new()).is_empty());
    let ids: Vec<String> = (0..250).map(|i| i.to_string()).collect();
    let urls = media_urls(&ids);
    assert_eq!(urls.len(), 3);
    let first: Vec<String> = (0..100).map(|i| i.to_string()).collect();
    assert_eq!(urls[0], format!("{}?ids={}", MEDIA_URL, first.join(",")));
    let last: Vec<String> = (200..250).map(|i| i.to_string()).collect();
    assert_eq!(urls[2], format!("{}?ids={}", MEDIA_URL, last.join(",")));
    let hundred: Vec<String> = (0..100).map(|i| i.to_string()).collect();
    assert_eq!(media_urls(&hundred).len(), 1);
}

#[test]
fn timeline_steps() {
    let s = timeline_step(&page(None, None, None));
    assert!(s.finished && !s.keep_page && s.before.is_none());
    let s = timeline_step(&page(Some(vec![post("p1", &[]), post("p2", &[])]), None, None));
    assert!(!s.finished && s.keep_page);
    assert_eq!(s.before, Some("p2".to_string()));
    let s = timeline_step(&page(Some(Vec::new()), None, None));
    assert!(s.finished && s.keep_page && s.before.is_none());
    let s = timeline_step(&page(None, None, Some(Vec::new())));
    assert!(!s.finished && !s.keep_page && s.before.is_none());
}

#[test]
fn group_message_steps() {
    assert_eq!(group_messages_step(&Vec::new()), (false, None));
    let few = vec![message("1", 10, &[]), message("2", 5, &[])];
    assert_eq!(group_messages_step(&few), (false, Some(5)));
    let full: Vec<Message> = (0..50).map(|i| message(&i.to_string(), 100 - i, &[])).collect();
    assert_eq!(group_messages_step(&full), (true, Some(51)));
}

#[test]
fn subscription_selections() {
    let subs = vec![fsub("a", 3, None), fsub("b", 5, None), fsub("c", 3, None)];
    assert_eq!(subscribed_account_ids(&subs), strings(&["a", "c"]));
    let stubs = vec![
        FollowedAccount { account_id: "f1".to_string(), status: 0, story_count: 0, version: 0, created_at: 0, updated_at: 0 },
        FollowedAccount { account_id: "f2".to_string(), status: 0, story_count: 0, version: 0, created_at: 0, updated_at: 0 },
    ];
    assert_eq!(followed_account_ids(&stubs), strings(&["f1", "f2"]));
    assert_eq!(SubscriptionStatus::from(3), SubscriptionStatus::Active);
    assert_eq!(SubscriptionStatus::from(5), SubscriptionStatus::Expired);
    assert_eq!(SubscriptionStatus::from(1), SubscriptionStatus::Invalid);
}

#[test]
fn subscription_threads_keep_groups_with_user() {
    let groups = vec![group("g1", &["me", "u1"]), group("g2", &["u2"]), group("g3", &["u1"])];
    let r = subscription_threads(groups, "u1");
    let ids: Vec<String> = r.iter().map(|g| g.id.clone()).collect();
    assert_eq!(ids, strings(&["g1", "g3"]));
}

#[test]
fn paid_transactions_to_known_accounts() {
    let ts = vec![wallet(2, 500, Some("a1")), wallet(1, 700, Some("a1")), wallet(2, 300, None), wallet(2, 900, Some("zz")), wallet(2, 100, Some("a2"))];
    let accounts = vec![account("a1", "alice", None), account("a2", "bob", None)];
    assert_eq!(paid_transactions(&ts, &accounts), vec![(500, "alice".to_string()), (100, "bob".to_string())]);
    assert_eq!(transaction_receiver_ids(&ts), strings(&["a1", "a1", "zz", "a2"]));
}

#[test]
fn gatherer_media_from_records() {
    let ms = vec![
        fmedia("m1", Some(details("d1", Some("a.jpg"), "image/jpeg", &["https://c/1"])), false),
        fmedia("m2", None, false),
        fmedia("m3", Some(details("d3", None, "video/mp4", &["https://c/3"])), true),
    ];
    let r = gatherer_media_from(ms.clone(), "u");
    assert_eq!(r.len(), 2);
    assert_eq!(r[0].file_name, "a.jpg");
    assert_eq!(r[1].file_name, "d3.mp4");
    let s = gatherer_media_from_stories(ms, "u");
    assert_eq!(s.len(), 2);
    assert_eq!(s[0].file_name, "m1.jpg");
    assert_eq!(s[1].file_name, "m3");
}

#[test]
fn profile_media_avatar_then_banner() {
    let mut a = account("a1", "alice", None);
    a.avatar = Some(fmedia("av", Some(details("dav", Some("me.png"), "image/png", &["https://c/av"])), false));
    a.banner = Some(fmedia("bn", Some(details("dbn", Some("top.png"), "image/png", &["https://c/bn"])), false));
    let r = profile_media(a, "alice");
    assert_eq!(r.len(), 2);
    assert_eq!(r[0].url, "https://c/av");
    assert_eq!(r[1].url, "https://c/bn");
    let mut b = account("a2", "bob", None);
    b.banner = Some(fmedia("bn", None, false));
    assert!(profile_media(b, "bob").is_empty());
}

#[test]
fn fansly_config_checks() {
    assert_eq!(GATHERER_NAME, "fansly");
    let c = FanslyConfig::default();
    match c.check_enabled() {
        Err(GathererErrors::NotEnabled { name }) => assert_eq!(name, "Fansly"),
        other => panic!("unexpected {:?}", other),
    }
    match c.check_auth_token() {
        Err(GathererErrors::InvalidCredentials { name, msg }) => {
            assert_eq!(name, "Fansly");
            assert_eq!(msg, "Cannot be used without an auth token.");
        }
        other => panic!("unexpected {:?}", other),
    }
    let c = FanslyConfig { enabled: true, auth_token: "tok".to_string(), ignore_lists: Vec::new() };
    assert!(c.check_enabled().is_ok());
    assert!(c.check_auth_token().is_ok());
    assert_eq!(c.default_headers(), vec![("Authorization".to_string(), "tok".to_string())]);
}

#[test]
fn transactions_page_steps() {
    assert_eq!(transactions_page_step(0, 10, 10, 25), (10, false));
    assert_eq!(transactions_page_step(20, 5, 25, 25), (25, true));
    assert_eq!(transactions_page_step(0, 0, 0, 0), (0, true));
}

#[test]
fn posts_debug_text_counts_posts() {
    assert_eq!(page(None, None, None).debug_text(), "Posts { posts: 0, .. }");
    assert_eq!(page(Some(vec![post("a", &[]), post("b", &[])]), None, None).debug_text(), "Posts { posts: 2, .. }");
}

#[test]
fn media_calls_ask_for_each_id_once_in_order() {
    let ids: Vec<String> = (0..201).map(|i| format!("id{}", i)).collect();
    let urls = media_urls(&ids);
    let prefix = format!("{}?ids=", MEDIA_URL);
    let asked: Vec<String> = urls
        .iter()
        .flat_map(|u| u[prefix.len()..].split(',').map(|s| s.to_string()).collect::<Vec<_>>())
        .collect();
    assert_eq!(asked, ids);
}

#[test]
fn sorted_ids_do_not_depend_on_input_order() {
    let a = sorted_unique(&strings(&["m2", "m1", "m3", "m1"]));
    let b = sorted_unique(&strings(&["m3", "m3", "m2", "m1"]));
    assert_eq!(a, b);
}

#[test]
fn media_from_details_uses_first_location() {
    let m = media_from_details(details("d1", Some("clip.mp4"), "video/mp4", &["https://c/1", "https://c/2"])).unwrap();
    assert_eq!(m.file_name, "clip.mp4");
    assert_eq!(m.url, "https://c/1");
    assert_eq!(m.mime_type, "video/mp4");
    assert!(!m.paid);
    assert_eq!(m.user_name, "");
    let m = media_from_details(details("d2", None, "image/png", &["https://c/3"])).unwrap();
    assert_eq!(m.file_name, "");
    let e = media_from_details(details("d3", Some("x.png"), "image/png", &[])).unwrap_err();
    assert!(e.starts_with("Content not available: "));
}

#[test]
fn matched_dates_checked_only_for_known_accounts() {
    assert!(timestamp_fits(0));
    assert!(timestamp_fits(8_210_266_876_799_999));
    assert!(!timestamp_fits(8_210_266_876_800_000));
    assert!(!timestamp_fits(i64::MIN));
    let mut bad = fsub("zz", 3, None);
    bad.created_at = i64::MAX;
    let subs = vec![fsub("a1", 3, None), bad];
    assert!(matched_dates_fit(&subs, &vec![account("a1", "alice", None)]));
    assert!(!matched_dates_fit(&subs, &vec![account("zz", "zed", None)]));
}

#[test]
fn to_gatherer_media_keeps_extension_case() {
    let m = fmedia("123", Some(details("d", Some("clip.MP4"), "video/mp4", &["https://c/1"])), false);
    assert_eq!(to_gatherer_media(m, "u").unwrap().file_name, "123.MP4");
    let m = fmedia("124", Some(details("d", Some(".hidden"), "video/mp4", &["https://c/1"])), false);
    assert_eq!(to_gatherer_media(m, "u").unwrap().file_name, "124");
    let m = fmedia("125", Some(details("d", Some("a.tar.gz"), "video/mp4", &["https://c/1"])), false);
    assert_eq!(to_gatherer_media(m, "u").unwrap().file_name, "125.gz");
}

#[test]
fn transaction_totals_per_payee() {
    let paid = vec![(500, "alice".to_string()), (100, "bob".to_string()), (250, "alice".to_string())];
    let totals = transaction_totals(&paid);
    assert_eq!(totals, vec![("alice".to_string(), 1250), ("bob".to_string(), 200)]);
    assert!(transaction_totals(&Vec::new()).is_empty());
    let big = vec![(i64::MAX, "x".to_string()), (i64::MAX, "x".to_string())];
    assert_eq!(transaction_totals(&big), vec![("x".to_string(), 3 * (i64::MAX as i128))]);
}
