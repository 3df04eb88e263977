use gatherers::gatherers::{select_gatherers, subscriber_jobs, GathererKind};
use gatherers::gatherers::{
    downloads_for_media, not_supported, plan_gatherer_runs, DateTime, GatherType, GathererErrors, Media,
    Post, RunLimits, Subscription, SubscriptionCost, SubscriptionName,
};

fn sub(id: &str, user: &str) -> Subscription {
    Subscription {
        id: id.to_string(),
        name: SubscriptionName { username: user.to_string(), display_name: None },
        plan: "Basic".to_string(),
        started: None,
        renewal_date: None,
        rewewal_price: SubscriptionCost(None),
        ends_at: None,
        video_count: 0,
        image_count: 0,
        bundle_count: 0,
    }
}

fn media(file_name: &str, paid: bool) -> Media {
    Media {
        file_name: file_name.to_string(),
        paid,
        mime_type: "video/mp4".to_string(),
        url: format!("https://cdn/{}", file_name),
        user_name: "u".to_string(),
    }
}

#[test]
fn gather_type_lists_and_names() {
    assert_eq!(
        GatherType::all(),
        vec![
            GatherType::Posts,
            GatherType::Messages,
            GatherType::Bundles,
            GatherType::Stories,
            GatherType::Purchased
        ]
    );
    assert_eq!(
        GatherType::for_subscriptions(),
        vec![GatherType::Posts, GatherType::Messages, GatherType::Bundles, GatherType::Stories]
    );
    assert_eq!(GatherType::Bundles.name(), "Bundles");
    assert_eq!(GatherType::Purchased.name(), "Purchased");
}

#[test]
fn not_supported_names_feature() {
    match not_supported("onlyfans", GatherType::Bundles) {
        GathererErrors::NotSupportedByGatherer { gatherer_name, feature } => {
            assert_eq!(gatherer_name, "onlyfans");
            assert_eq!(feature, "content_bundles");
        }
        other => panic!("unexpected {:?}", other),
    }
    match not_supported("x", GatherType::Purchased) {
        GathererErrors::NotSupportedByGatherer { feature, .. } => assert_eq!(feature, "paid content"),
        other => panic!("unexpected {:?}", other),
    }
}

#[test]
fn plan_gatherer_runs_four_jobs_per_subscription() {
    let subs = vec![sub("1", "alice"), sub("2", "bob")];
    let jobs = plan_gatherer_runs("Fansly", "/dl", subs, RunLimits { media: None, subscriptions: None }, &Vec::new());
    assert_eq!(jobs.len(), 8);
    assert_eq!(jobs[0].base_path, "/dl/fansly/alice");
    assert_eq!(jobs[0].gather_type, GatherType::Posts);
    assert_eq!(jobs[1].gather_type, GatherType::Messages);
    assert_eq!(jobs[2].gather_type, GatherType::Bundles);
    assert_eq!(jobs[3].gather_type, GatherType::Stories);
    assert_eq!(jobs[4].base_path, "/dl/fansly/bob");
    assert_eq!(jobs[4].subscription.id, "2");
    assert_eq!(jobs[7].name, "Fansly");
    assert!(jobs.iter().all(|j| j.gather_type != GatherType::Purchased));
}

#[test]
fn plan_gatherer_runs_limit_and_names() {
    let subs = vec![sub("1", "alice"), sub("2", "bob"), sub("3", "carol")];
    let jobs = plan_gatherer_runs("Fansly", "/dl", subs, RunLimits { media: None, subscriptions: Some(2) }, &Vec::new());
    assert_eq!(jobs.len(), 8);
    assert_eq!(jobs[4].subscription.name.username, "bob");

    let subs = vec![sub("1", "alice"), sub("2", "bob"), sub("3", "carol")];
    let names = vec!["carol".to_string(), "alice".to_string()];
    let jobs = plan_gatherer_runs("Fansly", "/dl", subs, RunLimits { media: None, subscriptions: Some(0) }, &names);
    assert_eq!(jobs.len(), 8);
    assert_eq!(jobs[0].subscription.name.username, "alice");
    assert_eq!(jobs[4].subscription.name.username, "carol");

    let subs = vec![sub("1", "alice"), sub("2", "bob"), sub("3", "carol")];
    let jobs = plan_gatherer_runs("Fansly", "/dl", subs, RunLimits { media: None, subscriptions: Some(2) }, &names);
    assert_eq!(jobs.len(), 4);
    assert_eq!(jobs[0].subscription.name.username, "alice");
}

#[test]
fn downloads_for_media_paid_and_free() {
    let medias = vec![media("a.mp4", true), media("b.mp4", false)];
    let d = downloads_for_media("/dl/fansly/alice", &medias);
    assert_eq!(d.len(), 2);
    assert_eq!(d[0].base_path, "/dl/fansly/alice/paid");
    assert_eq!(d[0].get_file_path(), "/dl/fansly/alice/paid/a.mp4");
    assert_eq!(d[1].base_path, "/dl/fansly/alice/free");
    assert_eq!(d[1].public_url, "https://cdn/b.mp4");
}

#[test]
fn date_time_display() {
    assert_eq!(DateTime(Some(0)).display_text(), "1970-01-01 00:00:00");
    assert_eq!(DateTime(Some(1_000_000_000_000)).display_text(), "2001-09-09 01:46:40");
    assert_eq!(DateTime(None).display_text(), "No Date Available");
}

#[test]
fn subscription_cost_display() {
    assert_eq!(SubscriptionCost(Some(499)).display_text(), "499");
    assert_eq!(SubscriptionCost(Some(-5)).display_text(), "-5");
    assert_eq!(SubscriptionCost(None).display_text(), "*Free*");
    let c: SubscriptionCost = 12i64.into();
    assert_eq!(c.0, Some(12));
}

#[test]
fn subscription_and_name_display() {
    let s = sub("42", "alice");
    assert_eq!(s.display_text(), "Subscription(id=42; user_name=alice)");
    assert_eq!(s.name.display_text(), "alice");
    let n = SubscriptionName { username: "a".to_string(), display_name: Some("Alice A".to_string()) };
    assert_eq!(n.display_text(), "Alice A");
    let c = s.clone();
    assert_eq!(c.id, "42");
    assert_eq!(c.name.username, "alice");
}

#[test]
fn post_display_quotes_title() {
    let p = Post {
        id: "7".to_string(),
        title: "Hello \"you\"".to_string(),
        content: String::new(),
        media: Vec::new(),
        paid: false,
    };
    assert_eq!(p.display_text(), "Post(id=7; title=\"Hello \\\"you\\\"\")");
}

#[test]
fn select_gatherers_by_name() {
    assert_eq!(select_gatherers(&Vec::new()), vec![GathererKind::Fansly, GathererKind::OnlyFans]);
    let names = vec!["only_fans".to_string(), "other".to_string(), "fansly".to_string(), "onlyfans".to_string()];
    assert_eq!(
        select_gatherers(&names),
        vec![GathererKind::OnlyFans, GathererKind::Fansly, GathererKind::OnlyFans]
    );
    assert!(select_gatherers(&vec!["Fansly".to_string()]).is_empty());
}

#[test]
fn subscriber_jobs_layout() {
    let s = sub("9", "dana");
    let jobs = subscriber_jobs("Fansly", "/dl", &s);
    assert_eq!(jobs.len(), 4);
    assert_eq!(jobs[0].base_path, "/dl/fansly/dana/dana");
    assert_eq!(jobs[0].name, "fansly");
    assert_eq!(jobs[3].gather_type, GatherType::Stories);
    assert_eq!(jobs[2].subscription.id, "9");
}

#[test]
fn download_location_of_planned_job() {
    let jobs = plan_gatherer_runs("FanSly", "/data/dl", vec![sub("1", "alice")], RunLimits { media: None, subscriptions: None }, &Vec::new());
    let d = downloads_for_media(&jobs[0].base_path, &vec![media("clip.mp4", true), media("pic.jpg", false)]);
    assert_eq!(d[0].get_file_path(), "/data/dl/fansly/alice/paid/clip.mp4");
    assert_eq!(d[1].get_file_path(), "/data/dl/fansly/alice/free/pic.jpg");
}
