//! What a gatherer finds (subscriptions, media) and how a run over a site's
//! subscriptions is planned.

use vstd::prelude::*;

use crate::downloaders::Downloadable;
use crate::paths::{path_join, path_join_seq};
use crate::text::{ascii_lower_seq, i64_decimal, signed_decimal_seq, string_of, strings_view, to_ascii_lowercase};

verus! {

/// The errors a gatherer reports.
#[derive(Debug)]
pub enum GathererErrors {
    NotSupportedByGatherer { gatherer_name: String, feature: String },
    NotEnabled { name: String },
    InvalidCredentials { name: String, msg: String },
    NoSubscriptionsFound { gatherer: String, data: String },
}

/// A kind of content that a gatherer collects.
#[derive(Debug, Clone, Copy, PartialEq, Eq, Structural)]
pub enum GatherType {
    Posts,
    Messages,
    Bundles,
    Stories,
    Purchased,
}

/// The kinds of content in their declared order.
pub open spec fn all_gather_types() -> Seq<GatherType> {
    seq![
        GatherType::Posts,
        GatherType::Messages,
        GatherType::Bundles,
        GatherType::Stories,
        GatherType::Purchased,
    ]
}

/// The kinds gathered for each subscription: all but purchased content.
pub open spec fn subscription_gather_types() -> Seq<GatherType> {
    seq![GatherType::Posts, GatherType::Messages, GatherType::Bundles, GatherType::Stories]
}

/// The name of a kind of content, as it is written out.
pub open spec fn gather_type_name(t: GatherType) -> Seq<char> {
    match t {
        GatherType::Posts => seq!['P', 'o', 's', 't', 's'],
        GatherType::Messages => seq!['M', 'e', 's', 's', 'a', 'g', 'e', 's'],
        GatherType::Bundles => seq!['B', 'u', 'n', 'd', 'l', 'e', 's'],
        GatherType::Stories => seq!['S', 't', 'o', 'r', 'i', 'e', 's'],
        GatherType::Purchased => seq!['P', 'u', 'r', 'c', 'h', 'a', 's', 'e', 'd'],
    }
}

impl GatherType {
    /// Every kind of content, in declared order.
    pub fn all() -> (v: Vec<GatherType>)
        ensures
            v@ == all_gather_types(),
    {
        let v = vec![
            GatherType::Posts,
            GatherType::Messages,
            GatherType::Bundles,
            GatherType::Stories,
            GatherType::Purchased,
        ];
        assert(v@ =~= all_gather_types());
        v
    }

    /// The kinds gathered for each subscription, in declared order.
    pub fn for_subscriptions() -> (v: Vec<GatherType>)
        ensures
            v@ == subscription_gather_types(),
            v@ == all_gather_types().filter(|t: GatherType| t != GatherType::Purchased),
    {
        let all = GatherType::all();
        let mut v: Vec<GatherType> = Vec::new();
        let mut i: usize = 0;
        while i < all.len()
            invariant
                i <= all.len(),
                all@ == all_gather_types(),
                v@ == all@.take(i as int).filter(|t: GatherType| t != GatherType::Purchased),
            decreases all.len() - i,
        {
            proof {
                reveal_with_fuel(Seq::<_>::filter, 1);
                assert(all@.take(i + 1).drop_last() =~= all@.take(i as int));
            }
            if all[i] != GatherType::Purchased {
                v.push(all[i]);
            }
            i = i + 1;
        }
        proof {
            assert(all@.take(5) =~= all@);
            reveal_with_fuel(Seq::<_>::filter, 6);
            assert(all_gather_types().take(0) =~= Seq::<GatherType>::empty());
            assert(all_gather_types().take(1).drop_last() =~= all_gather_types().take(0));
            assert(all_gather_types().take(2).drop_last() =~= all_gather_types().take(1));
            assert(all_gather_types().take(3).drop_last() =~= all_gather_types().take(2));
            assert(all_gather_types().take(4).drop_last() =~= all_gather_types().take(3));
            assert(all_gather_types().take(5).drop_last() =~= all_gather_types().take(4));
            assert(v@ =~= subscription_gather_types());
        }
        v
    }

    /// The name of the kind, as it is written out.
    pub fn name(&self) -> (s: String)
        ensures
            s@ == gather_type_name(*self),
    {
        let s = match self {
            GatherType::Posts => "Posts",
            GatherType::Messages => "Messages",
            GatherType::Bundles => "Bundles",
            GatherType::Stories => "Stories",
            GatherType::Purchased => "Purchased",
        };
        proof {
            reveal_strlit("Posts");
            reveal_strlit("Messages");
            reveal_strlit("Bundles");
            reveal_strlit("Stories");
            reveal_strlit("Purchased");
        }
        s.to_owned()
    }
}

/// The feature a gatherer lacks when it cannot gather a kind of content.
pub open spec fn feature_name(t: GatherType) -> Seq<char> {
    match t {
        GatherType::Posts => "posts"@,
        GatherType::Messages => "messages"@,
        GatherType::Bundles => "content_bundles"@,
        GatherType::Stories => "stories"@,
        GatherType::Purchased => "paid content"@,
    }
}

/// The error of a gatherer that cannot gather the kind `t` of content.
pub fn not_supported(gatherer_name: &str, t: GatherType) -> (e: GathererErrors)
    ensures
        e matches GathererErrors::NotSupportedByGatherer { gatherer_name: g, feature } && g@
            == gatherer_name@ && feature@ == feature_name(t),
{
    let feature = match t {
        GatherType::Posts => "posts",
        GatherType::Messages => "messages",
        GatherType::Bundles => "content_bundles",
        GatherType::Stories => "stories",
        GatherType::Purchased => "paid content",
    };
    GathererErrors::NotSupportedByGatherer {
        gatherer_name: gatherer_name.to_owned(),
        feature: feature.to_owned(),
    }
}

/// Reactions a gatherer can give to content.
pub trait Like {
    fn like_post(post_id: u64);

    fn like_msg_from_user(msg_id: u64);

    fn like_media_file(media_id: u64);
}

/// Limits on a run: how many media and subscriptions to take at most.
#[derive(Debug, Clone, Copy)]
pub struct RunLimits {
    pub media: Option<usize>,
    pub subscriptions: Option<usize>,
}

/// A piece of content to download.
#[derive(Debug)]
pub struct Media {
    pub file_name: String,
    pub paid: bool,
    pub mime_type: String,
    pub url: String,
    pub user_name: String,
}

/// The name of a subscribed account.
#[derive(Debug)]
pub struct SubscriptionName {
    pub username: String,
    pub display_name: Option<String>,
}

/// The name a subscription name is shown by: its display name when there is
/// one, its user name otherwise.
pub open spec fn shown_name(n: SubscriptionName) -> Seq<char> {
    match n.display_name {
        Some(d) => d@,
        None => n.username@,
    }
}

pub(crate) fn clone_opt_string(s: &Option<String>) -> (r: Option<String>)
    ensures
        r == *s,
{
    match s {
        Some(x) => Some(x.clone()),
        None => None,
    }
}

impl SubscriptionName {
    /// The name shown for the account.
    pub fn display_text(&self) -> (s: String)
        ensures
            s@ == shown_name(*self),
    {
        match &self.display_name {
            Some(d) => d.clone(),
            None => self.username.clone(),
        }
    }

    pub fn clone(&self) -> (r: SubscriptionName)
        ensures
            r == *self,
    {
        SubscriptionName {
            username: self.username.clone(),
            display_name: clone_opt_string(&self.display_name),
        }
    }
}

/// The first and the last millisecond since the Unix epoch that a date can
/// hold: the first of January of the year -262143 and the last of December of
/// the year 262142.
pub open spec fn timestamp_in_range(millis: i64) -> bool {
    -8334601315200000 <= millis <= 8210266876799999
}

/// Whether a date can hold the time `millis` milliseconds after the Unix epoch.
pub fn timestamp_fits(millis: i64) -> (b: bool)
    ensures
        b == timestamp_in_range(millis),
{
    -8334601315200000 <= millis && millis <= 8210266876799999
}

/// A point in time, in milliseconds since the Unix epoch (UTC), when known.
#[derive(Debug, Clone, Copy)]
pub struct DateTime(pub Option<i64>);

/// The text `%Y-%m-%d %H:%M:%S` gives for a point in time.
pub uninterp spec fn utc_date_time_text(millis: i64) -> Seq<char>;

/// Writes the time `millis` after the Unix epoch as `%Y-%m-%d %H:%M:%S` (UTC)
/// with `chrono`. The contract names the text and says nothing more of it.
#[verifier::external_body]
fn format_utc_millis(millis: i64) -> (s: String)
    requires
        timestamp_in_range(millis),
    ensures
        s@ == utc_date_time_text(millis),
{
    match chrono::DateTime::from_timestamp_millis(millis) {
        Some(t) => t.format("%Y-%m-%d %H:%M:%S").to_string(),
        None => String::new(),
    }
}

impl DateTime {
    /// The text of the time: its date and time of day, or `No Date Available`.
    pub fn display_text(&self) -> (s: String)
        requires
            self.0 matches Some(ms) ==> timestamp_in_range(ms),
        ensures
            self.0 matches Some(ms) ==> s@ == utc_date_time_text(ms),
            self.0 is None ==> s@ == "No Date Available"@,
    {
        match self.0 {
            Some(ms) => format_utc_millis(ms),
            None => "No Date Available".to_owned(),
        }
    }
}

/// The price of a subscription, when it has one.
#[derive(Debug, Clone, Copy)]
pub struct SubscriptionCost(pub Option<i64>);

impl SubscriptionCost {
    /// The price in decimal, or `*Free*`.
    pub fn display_text(&self) -> (s: String)
        ensures
            self.0 matches Some(c) ==> s@ == signed_decimal_seq(c as int),
            self.0 is None ==> s@ == "*Free*"@,
    {
        match self.0 {
            Some(c) => string_of(i64_decimal(c).as_slice()),
            None => "*Free*".to_owned(),
        }
    }
}

impl From<i64> for SubscriptionCost {
    fn from(s: i64) -> (r: SubscriptionCost) {
        SubscriptionCost(Some(s))
    }
}

impl vstd::std_specs::convert::FromSpecImpl<i64> for SubscriptionCost {
    open spec fn obeys_from_spec() -> bool {
        true
    }

    open spec fn from_spec(v: i64) -> SubscriptionCost {
        SubscriptionCost(Some(v))
    }
}

/// A subscription of the signed-in user to an account.
#[derive(Debug)]
pub struct Subscription {
    pub id: String,
    pub name: SubscriptionName,
    pub plan: String,
    pub started: Option<DateTime>,
    pub renewal_date: Option<DateTime>,
    pub rewewal_price: SubscriptionCost,
    pub ends_at: Option<DateTime>,
    pub video_count: i32,
    pub image_count: i32,
    pub bundle_count: i32,
}

impl Subscription {
    pub fn clone(&self) -> (r: Subscription)
        ensures
            r == *self,
    {
        Subscription {
            id: self.id.clone(),
            name: self.name.clone(),
            plan: self.plan.clone(),
            started: self.started,
            renewal_date: self.renewal_date,
            rewewal_price: self.rewewal_price,
            ends_at: self.ends_at,
            video_count: self.video_count,
            image_count: self.image_count,
            bundle_count: self.bundle_count,
        }
    }

    /// `Subscription(id=<id>; user_name=<user name>)`.
    pub fn display_text(&self) -> (s: String)
        ensures
            s@ == "Subscription(id="@ + self.id@ + "; user_name="@ + self.name.username@ + ")"@,
    {
        let mut s = "Subscription(id=".to_owned();
        s.append(self.id.as_str());
        s.append("; user_name=");
        s.append(self.name.username.as_str());
        s.append(")");
        s
    }
}

/// A post of an account.
#[derive(Debug)]
pub struct Post {
    pub id: String,
    pub title: String,
    pub content: String,
    pub media: Vec<Media>,
    pub paid: bool,
}

/// The text `{:?}` writes for a string: quoted, with escapes.
pub uninterp spec fn debug_text(s: Seq<char>) -> Seq<char>;

/// Writes `s` with `Debug` (`format!("{:?}", s)`). The contract names the text
/// and says nothing more of it.
#[verifier::external_body]
fn str_debug(s: &str) -> (r: String)
    ensures
        r@ == debug_text(s@),
{
    format!("{:?}", s)
}

impl Post {
    /// `Post(id=<id>; title=<title quoted>)`.
    pub fn display_text(&self) -> (s: String)
        ensures
            s@ == "Post(id="@ + self.id@ + "; title="@ + debug_text(self.title@) + ")"@,
    {
        let mut s = "Post(id=".to_owned();
        s.append(self.id.as_str());
        s.append("; title=");
        let t = str_debug(self.title.as_str());
        s.append(t.as_str());
        s.append(")");
        s
    }
}

/// A message between two accounts.
#[derive(Debug)]
pub struct Message {
    pub from: SubscriptionName,
    pub to: SubscriptionName,
    pub message: String,
    pub attached_media: Vec<Media>,
}

/// A story of an account.
#[derive(Debug)]
pub struct Story {
    pub id: String,
    pub content_text: Option<String>,
}

/// One gathering job: a kind of content of one subscription, and the folder
/// its media go to.
#[derive(Debug)]
pub struct GathererInfo {
    pub base_path: String,
    pub gather_type: GatherType,
    pub subscription: Subscription,
    pub name: String,
}

/// The subscriptions a run covers: at most `limit` of them when a limit other
/// than zero is set.
pub open spec fn limited_subscriptions(subs: Seq<Subscription>, limit: Option<usize>) -> Seq<Subscription> {
    match limit {
        Some(n) => if n != 0 && n < subs.len() {
            subs.take(n as int)
        } else {
            subs
        },
        None => subs,
    }
}

/// The subscriptions whose user name is among `names`, in order.
pub open spec fn subscriptions_named(subs: Seq<Subscription>, names: Seq<Seq<char>>) -> Seq<Subscription>
    decreases subs.len(),
{
    if subs.len() == 0 {
        subs
    } else {
        let r = subscriptions_named(subs.drop_last(), names);
        if names.contains(subs.last().name.username@) {
            r.push(subs.last())
        } else {
            r
        }
    }
}

/// The subscriptions a run gathers: the limited ones, narrowed to `names`
/// when any names are given.
pub open spec fn selected_subscriptions(
    subs: Seq<Subscription>,
    limit: Option<usize>,
    names: Seq<Seq<char>>,
) -> Seq<Subscription> {
    let limited = limited_subscriptions(subs, limit);
    if names.len() == 0 {
        limited
    } else {
        subscriptions_named(limited, names)
    }
}

/// The folder of a gatherer's media: the base path joined with the gatherer's
/// name in lower case.
pub open spec fn gatherer_folder(base_path: Seq<char>, gatherer_name: Seq<char>) -> Seq<char> {
    path_join_seq(base_path, ascii_lower_seq(gatherer_name))
}

/// The job for subscription `sub` and kind `t`.
pub open spec fn planned_job(
    folder: Seq<char>,
    gatherer_name: Seq<char>,
    sub: Subscription,
    t: GatherType,
    job: GathererInfo,
) -> bool {
    &&& job.base_path@ == path_join_seq(folder, sub.name.username@)
    &&& job.gather_type == t
    &&& job.subscription == sub
    &&& job.name@ == gatherer_name
}

/// Plans the jobs of one gatherer over its subscriptions: the subscriptions
/// are limited, then narrowed to `user_names` when any are given; each of them
/// gets one job per kind of content but purchased content, in that order,
/// with the folder `<base>/<gatherer in lower case>/<user name>`.
pub fn plan_gatherer_runs(
    gatherer_name: &str,
    base_path: &str,
    subscriptions: Vec<Subscription>,
    limits: RunLimits,
    user_names: &Vec<String>,
) -> (jobs: Vec<GathererInfo>)
    ensures
        ({
            let sel = selected_subscriptions(
                subscriptions@,
                limits.subscriptions,
                strings_view(user_names@),
            );
            &&& jobs@.len() == 4 * sel.len()
            &&& forall|i: int, j: int|
                0 <= i < sel.len() && 0 <= j < 4 ==> planned_job(
                    gatherer_folder(base_path@, gatherer_name@),
                    gatherer_name@,
                    sel[i],
                    subscription_gather_types()[j],
                    #[trigger] jobs@[4 * i + j],
                )
            &&& forall|i: int, j: int|
                0 <= i < sel.len() && 0 <= j < 4 ==> (#[trigger] jobs@[4 * i + j]).base_path@ == path_join_seq(
                    gatherer_folder(base_path@, gatherer_name@),
                    sel[i].name.username@,
                ) && jobs@[4 * i + j].subscription == sel[i]
        }),
        forall|i: int| 0 <= i < jobs@.len() ==> (#[trigger] jobs@[i]).gather_type != GatherType::Purchased,
{
    let n = subscriptions.len();
    let limited_count: usize = match limits.subscriptions {
        Some(l) => if l != 0 && l < n {
            l
        } else {
            n
        },
        None => n,
    };
    let ghost limited = limited_subscriptions(subscriptions@, limits.subscriptions);
    assert(limited == subscriptions@.take(limited_count as int)) by {
        assert(subscriptions@.take(n as int) =~= subscriptions@);
    }
    let ghost names = strings_view(user_names@);
    let mut selected: Vec<Subscription> = Vec::new();
    let mut i: usize = 0;
    while i < limited_count
        invariant
            i <= limited_count <= n,
            n == subscriptions.len(),
            limited == subscriptions@.take(limited_count as int),
            names == strings_view(user_names@),
            names.len() == 0 ==> selected@ == limited.take(i as int),
            names.len() > 0 ==> selected@ == subscriptions_named(limited.take(i as int), names),
        decreases limited_count - i,
    {
        assert(limited.take(i + 1).drop_last() =~= limited.take(i as int));
        assert(limited.take(i + 1).last() == subscriptions@[i as int]);
        let keep = if user_names.len() == 0 {
            true
        } else {
            contains_name(user_names, &subscriptions[i].name.username)
        };
        if keep {
            selected.push(subscriptions[i].clone());
        }
        proof {
            if names.len() == 0 {
                assert(selected@ =~= limited.take(i + 1));
            }
        }
        i = i + 1;
    }
    assert(limited.take(limited_count as int) =~= limited);
    let ghost sel = selected_subscriptions(
        subscriptions@,
        limits.subscriptions,
        strings_view(user_names@),
    );
    assert(selected@ == sel);
    let lower = to_ascii_lowercase(gatherer_name);
    let folder = path_join(base_path, lower.as_str());
    let types = GatherType::for_subscriptions();
    let mut jobs: Vec<GathererInfo> = Vec::new();
    let mut k: usize = 0;
    while k < selected.len()
        invariant
            k <= selected.len(),
            selected@ == sel,
            folder@ == gatherer_folder(base_path@, gatherer_name@),
            types@ == subscription_gather_types(),
            jobs@.len() == 4 * k,
            forall|a: int, b: int|
                0 <= a < k && 0 <= b < 4 ==> planned_job(
                    folder@,
                    gatherer_name@,
                    sel[a],
                    subscription_gather_types()[b],
                    #[trigger] jobs@[4 * a + b],
                ),
        decreases selected.len() - k,
    {
        let sub_folder = path_join(folder.as_str(), selected[k].name.username.as_str());
        let mut t: usize = 0;
        while t < 4
            invariant
                t <= 4,
                k < selected.len(),
                selected@ == sel,
                types@ == subscription_gather_types(),
                sub_folder@ == path_join_seq(folder@, sel[k as int].name.username@),
                jobs@.len() == 4 * k + t,
                forall|a: int, b: int|
                    (0 <= a < k && 0 <= b < 4) || (a == k && 0 <= b < t) ==> planned_job(
                        folder@,
                        gatherer_name@,
                        sel[a],
                        subscription_gather_types()[b],
                        #[trigger] jobs@[4 * a + b],
                    ),
            decreases 4 - t,
        {
            let job = GathererInfo {
                base_path: sub_folder.clone(),
                gather_type: types[t],
                subscription: selected[k].clone(),
                name: gatherer_name.to_owned(),
            };
            let ghost before = jobs@;
            jobs.push(job);
            proof {
                assert forall|a: int, b: int|
                    (0 <= a < k && 0 <= b < 4) || (a == k && 0 <= b < t + 1) implies planned_job(
                    folder@,
                    gatherer_name@,
                    sel[a],
                    subscription_gather_types()[b],
                    #[trigger] jobs@[4 * a + b],
                ) by {
                    if a == k && b == t {
                        assert(jobs@[4 * a + b] == job);
                    } else {
                        assert(4 * a + b < 4 * k + t);
                        assert(jobs@[4 * a + b] == before[4 * a + b]);
                    }
                }
            }
            t = t + 1;
        }
        k = k + 1;
    }
    assert forall|i: int, j: int|
        0 <= i < sel.len() && 0 <= j < 4 implies (#[trigger] jobs@[4 * i + j]).base_path@ == path_join_seq(
        gatherer_folder(base_path@, gatherer_name@),
        sel[i].name.username@,
    ) && jobs@[4 * i + j].subscription == sel[i] by {
        law_job_folder_is_user_name(
            gatherer_folder(base_path@, gatherer_name@),
            gatherer_name@,
            sel[i],
            subscription_gather_types()[j],
            jobs@[4 * i + j],
        );
    }
    assert forall|i: int| 0 <= i < jobs@.len() implies (#[trigger] jobs@[i]).gather_type
        != GatherType::Purchased by {
        let a = i / 4;
        let b = i % 4;
        assert(jobs@[4 * a + b] == jobs@[i]);
    }
    jobs
}

fn contains_name(names: &Vec<String>, name: &String) -> (b: bool)
    ensures
        b == strings_view(names@).contains(name@),
{
    let mut i: usize = 0;
    while i < names.len()
        invariant
            i <= names.len(),
            forall|j: int| 0 <= j < i ==> names@[j]@ != name@,
        decreases names.len() - i,
    {
        if names[i] == *name {
            assert(strings_view(names@)[i as int] == name@);
            return true;
        }
        i = i + 1;
    }
    proof {
        if strings_view(names@).contains(name@) {
            let j = choose|j: int| 0 <= j < names@.len() && strings_view(names@)[j] == name@;
            assert(names@[j]@ == name@);
        }
    }
    false
}

/// The jobs for one subscription, one per kind of content but purchased
/// content, in that order: each goes to the folder
/// `<base>/<gatherer in lower case>/<user name>/<user name>` and carries the
/// gatherer's name in lower case.
pub fn subscriber_jobs(gatherer_name: &str, base_path: &str, sub: &Subscription) -> (jobs: Vec<GathererInfo>)
    ensures
        jobs@.len() == 4,
        forall|j: int|
            0 <= j < 4 ==> {
                &&& (#[trigger] jobs@[j]).base_path@ == path_join_seq(
                    path_join_seq(gatherer_folder(base_path@, gatherer_name@), sub.name.username@),
                    sub.name.username@,
                )
                &&& jobs@[j].gather_type == subscription_gather_types()[j]
                &&& jobs@[j].subscription == *sub
                &&& jobs@[j].name@ == ascii_lower_seq(gatherer_name@)
            },
{
    let lower = to_ascii_lowercase(gatherer_name);
    let folder = path_join(base_path, lower.as_str());
    let sub_folder = path_join(folder.as_str(), sub.name.username.as_str());
    let job_folder = path_join(sub_folder.as_str(), sub.name.username.as_str());
    let types = GatherType::for_subscriptions();
    let mut jobs: Vec<GathererInfo> = Vec::new();
    let mut t: usize = 0;
    while t < 4
        invariant
            t <= 4,
            types@ == subscription_gather_types(),
            lower@ == ascii_lower_seq(gatherer_name@),
            job_folder@ == path_join_seq(
                path_join_seq(gatherer_folder(base_path@, gatherer_name@), sub.name.username@),
                sub.name.username@,
            ),
            jobs@.len() == t,
            forall|j: int|
                0 <= j < t ==> {
                    &&& (#[trigger] jobs@[j]).base_path@ == job_folder@
                    &&& jobs@[j].gather_type == subscription_gather_types()[j]
                    &&& jobs@[j].subscription == *sub
                    &&& jobs@[j].name@ == lower@
                },
        decreases 4 - t,
    {
        jobs.push(
            GathererInfo {
                base_path: job_folder.clone(),
                gather_type: types[t],
                subscription: sub.clone(),
                name: lower.clone(),
            },
        );
        t = t + 1;
    }
    jobs
}

/// The folder a media goes to within a job's folder: `paid` or `free`.
pub open spec fn media_folder(base_path: Seq<char>, m: Media) -> Seq<char> {
    path_join_seq(base_path, if m.paid {
        seq!['p', 'a', 'i', 'd']
    } else {
        seq!['f', 'r', 'e', 'e']
    })
}

/// The downloads for the media a job found: each media goes to the `paid` or
/// `free` folder within the job's folder, under its own file name.
pub fn downloads_for_media(base_path: &str, medias: &Vec<Media>) -> (d: Vec<Downloadable>)
    ensures
        d@.len() == medias@.len(),
        forall|i: int|
            0 <= i < medias@.len() ==> {
                &&& (#[trigger] d@[i]).base_path@ == media_folder(base_path@, medias@[i])
                &&& d@[i].file_name@ == medias@[i].file_name@
                &&& d@[i].public_url@ == medias@[i].url@
            },
{
    let mut d: Vec<Downloadable> = Vec::new();
    let mut i: usize = 0;
    while i < medias.len()
        invariant
            i <= medias.len(),
            d@.len() == i,
            forall|j: int|
                0 <= j < i ==> {
                    &&& (#[trigger] d@[j]).base_path@ == media_folder(base_path@, medias@[j])
                    &&& d@[j].file_name@ == medias@[j].file_name@
                    &&& d@[j].public_url@ == medias@[j].url@
                },
        decreases medias.len() - i,
    {
        let m = &medias[i];
        let folder = if m.paid {
            "paid"
        } else {
            "free"
        };
        proof {
            reveal_strlit("paid");
            reveal_strlit("free");
        }
        let p = path_join(base_path, folder);
        d.push(Downloadable::from_media_with_path(m, p));
        i = i + 1;
    }
    d
}

/// The gatherers the program knows.
#[derive(Debug, Clone, Copy, PartialEq, Eq, Structural)]
pub enum GathererKind {
    Fansly,
    OnlyFans,
}

/// The gatherer a name on the command line stands for.
pub open spec fn gatherer_named(name: Seq<char>) -> Option<GathererKind> {
    if name == "fansly"@ {
        Some(GathererKind::Fansly)
    } else if name == "onlyfans"@ || name == "only_fans"@ {
        Some(GathererKind::OnlyFans)
    } else {
        None
    }
}

/// The gatherers the names stand for, in order; unknown names are skipped.
pub open spec fn gatherers_named(names: Seq<Seq<char>>) -> Seq<GathererKind>
    decreases names.len(),
{
    if names.len() == 0 {
        Seq::empty()
    } else {
        let r = gatherers_named(names.drop_last());
        match gatherer_named(names.last()) {
            Some(k) => r.push(k),
            None => r,
        }
    }
}

/// The gatherers to start: those the names stand for, or every known one
/// when no name is given.
pub fn select_gatherers(names: &Vec<String>) -> (r: Vec<GathererKind>)
    ensures
        names@.len() == 0 ==> r@ == seq![GathererKind::Fansly, GathererKind::OnlyFans],
        names@.len() > 0 ==> r@ == gatherers_named(strings_view(names@)),
{
    let mut r: Vec<GathererKind> = Vec::new();
    if names.len() == 0 {
        r.push(GathererKind::Fansly);
        r.push(GathererKind::OnlyFans);
        assert(r@ =~= seq![GathererKind::Fansly, GathererKind::OnlyFans]);
        return r;
    }
    let fansly = "fansly".to_owned();
    let onlyfans = "onlyfans".to_owned();
    let only_fans = "only_fans".to_owned();
    let mut i: usize = 0;
    while i < names.len()
        invariant
            i <= names.len(),
            fansly@ == "fansly"@,
            onlyfans@ == "onlyfans"@,
            only_fans@ == "only_fans"@,
            r@ == gatherers_named(strings_view(names@).take(i as int)),
        decreases names.len() - i,
    {
        let ghost before = strings_view(names@).take(i as int);
        assert(strings_view(names@).take(i + 1).drop_last() =~= before);
        assert(strings_view(names@).take(i + 1).last() == names@[i as int]@);
        let name = &names[i];
        if *name == fansly {
            r.push(GathererKind::Fansly);
        } else if *name == onlyfans || *name == only_fans {
            r.push(GathererKind::OnlyFans);
        }
        i = i + 1;
    }
    assert(strings_view(names@).take(names.len() as int) =~= strings_view(names@));
    r
}

/// Where a download of a planned job is saved: under the base folder, the
/// gatherer's name in lower case, the user name, `paid` or `free`, and the
/// media's file name, one folder in the other, when the base folder is given
/// without a trailing `/` and the names hold no `/`.
pub proof fn law_download_location(base: Seq<char>, gatherer: Seq<char>, user: Seq<char>, m: Media)
    requires
        base.len() > 0,
        base.last() != '/',
        gatherer.len() > 0,
        !gatherer.contains('/'),
        user.len() > 0,
        !user.contains('/'),
        m.file_name@.len() > 0,
        m.file_name@[0] != '/',
    ensures
        path_join_seq(media_folder(path_join_seq(gatherer_folder(base, gatherer), user), m), m.file_name@)
            == base + seq!['/'] + ascii_lower_seq(gatherer) + seq!['/'] + user + seq!['/'] + (if m.paid {
            seq!['p', 'a', 'i', 'd']
        } else {
            seq!['f', 'r', 'e', 'e']
        }) + seq!['/'] + m.file_name@,
{
    let lower = ascii_lower_seq(gatherer);
    assert(lower.len() > 0);
    assert(lower[0] != '/' && lower.last() != '/') by {
        assert(gatherer[0] != '/');
        assert(gatherer.last() == gatherer[gatherer.len() - 1]);
        assert(gatherer[gatherer.len() - 1] != '/');
    }
    assert(user[0] != '/' && user.last() != '/') by {
        assert(user[user.len() - 1] != '/');
    }
    let g = gatherer_folder(base, gatherer);
    assert(g == base + seq!['/'] + lower);
    assert(g.last() == lower.last());
    let u = path_join_seq(g, user);
    assert(u == g + seq!['/'] + user);
    assert(u.last() == user.last());
    let kind = if m.paid { seq!['p', 'a', 'i', 'd'] } else { seq!['f', 'r', 'e', 'e'] };
    let f = media_folder(u, m);
    assert(f == u + seq!['/'] + kind);
    assert(f.last() == kind.last());
    assert(path_join_seq(f, m.file_name@) == f + seq!['/'] + m.file_name@);
    assert(path_join_seq(f, m.file_name@) =~= base + seq!['/'] + lower + seq!['/'] + user + seq!['/'] + kind
        + seq!['/'] + m.file_name@);
}

/// A planned job goes to the folder of the subscription's user name within
/// the gatherer's folder, whatever name the account shows, and carries the
/// subscription, the kind of content and the gatherer's name it was made for.
pub proof fn law_job_folder_is_user_name(
    folder: Seq<char>,
    gatherer_name: Seq<char>,
    sub: Subscription,
    t: GatherType,
    job: GathererInfo,
)
    requires
        planned_job(folder, gatherer_name, sub, t, job),
    ensures
        job.base_path@ == path_join_seq(folder, sub.name.username@),
        job.subscription == sub,
        job.gather_type == t,
        job.name@ == gatherer_name,
{
}

} // verus!
