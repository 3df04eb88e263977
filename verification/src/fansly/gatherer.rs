//! How the site's data turns into what a gatherer hands on: subscriptions and
//! media to download.

use vstd::prelude::*;

use super::structs::{Account, Media, MediaDetails, Subscription};
use crate::errors::Report;
use crate::gatherers;
use crate::gatherers::{clone_opt_string, timestamp_fits, timestamp_in_range, DateTime, SubscriptionCost, SubscriptionName};
use crate::paths::{file_name_extension, path_extension, path_extension_of};
use crate::text::{chars_of, split_chars, split_seq, string_of, char_vecs_view, lemma_split_nonempty};

verus! {

/// `.` and the extension of `name`, or nothing when it has none.
pub open spec fn extension_suffix(name: Seq<char>) -> Seq<char> {
    match path_extension_of(name) {
        Some(e) => seq!['.'] + e,
        None => Seq::<char>::empty(),
    }
}

/// A file name that `Path::extension` reads as a file name of its own: not
/// empty, without `/`, and neither `.` nor `..`.
pub open spec fn plain_file_name(name: Seq<char>) -> bool {
    &&& name.len() > 0
    &&& !name.contains('/')
    &&& name != seq!['.']
    &&& name != seq!['.', '.']
}

/// `.` and the text after the last `.` of a plain file name, or nothing when
/// it has no extension.
pub open spec fn file_name_suffix(name: Seq<char>) -> Seq<char> {
    match file_name_extension(name) {
        Some(e) => seq!['.'] + e,
        None => Seq::<char>::empty(),
    }
}

/// The text of an optional string, empty when there is none.
pub open spec fn text_or_empty(s: Option<String>) -> Seq<char> {
    match s {
        Some(x) => x@,
        None => Seq::<char>::empty(),
    }
}

/// The media has details with at least one location.
pub open spec fn media_available(m: Media) -> bool {
    m.details matches Some(d) && d.locations@.len() > 0
}

/// Writes a media record with `Debug` for an error message; nothing is said of
/// the text.
#[verifier::external_body]
fn media_debug(m: &Media) -> String {
    format!("{:?}", m)
}

/// Writes the details of a media record with `Debug` for an error message;
/// nothing is said of the text.
#[verifier::external_body]
fn details_debug(d: &MediaDetails) -> String {
    format!("{:?}", d)
}

/// The gatherer's media for a media record of the site: named after the
/// record's id and the extension of its original file name, fetched from its
/// first location. A record without details or without locations is not
/// available.
pub fn to_gatherer_media(fansly_media: Media, sub_name: &str) -> (r: Result<gatherers::Media, Report>)
    ensures
        r is Ok <==> media_available(fansly_media),
        r matches Ok(m) ==> {
            let d = fansly_media.details.unwrap();
            &&& m.file_name@ == fansly_media.id@ + extension_suffix(text_or_empty(d.file_name))
            &&& m.url@ == d.locations@[0].location@
            &&& m.mime_type@ == d.mimetype@
            &&& m.paid == fansly_media.purchased
            &&& m.user_name@ == sub_name@
            &&& plain_file_name(text_or_empty(d.file_name)) ==> m.file_name@ == fansly_media.id@
                + file_name_suffix(text_or_empty(d.file_name))
        },
        r matches Err(e) ==> e.message@.take(23) == "Content not available: "@,
{
    match fansly_media.details {
        Some(details) => {
            if details.locations.len() == 0 {
                let shown = details_debug(&details);
                let mut message = "Content not available: ".to_owned();
                message.append(shown.as_str());
                proof {
                    reveal_strlit("Content not available: ");
                    assert(message@.take(23) =~= "Content not available: "@);
                }
                return Err(Report { message });
            }
            let filename = match &details.file_name {
                Some(f) => f.clone(),
                None => String::new(),
            };
            let mut file_name = fansly_media.id.clone();
            match path_extension(filename.as_str()) {
                Some(ext) => {
                    file_name.append(".");
                    file_name.append(ext.as_str());
                    proof {
                        reveal_strlit(".");
                    }
                },
                None => {},
            }
            proof {
                assert(filename@ == text_or_empty(details.file_name));
                assert(file_name@ =~= fansly_media.id@ + extension_suffix(filename@));
            }
            Ok(
                gatherers::Media {
                    file_name,
                    url: details.locations[0].location.clone(),
                    mime_type: details.mimetype,
                    paid: fansly_media.purchased,
                    user_name: sub_name.to_owned(),
                },
            )
        },
        None => {
            let shown = media_debug(&fansly_media);
            let mut message = "Content not available: ".to_owned();
            message.append(shown.as_str());
            proof {
                reveal_strlit("Content not available: ");
                assert(message@.take(23) =~= "Content not available: "@);
            }
            Err(Report { message })
        },
    }
}

/// The file name a media record is saved under: its original file name when it
/// has a non-empty one, otherwise its id, `.` and the part of its mime type
/// after the last `/`.
pub open spec fn saved_file_name(d: super::structs::MediaDetails) -> Seq<char> {
    match d.file_name {
        Some(f) if f@.len() > 0 => f@,
        _ => d.id@ + seq!['.'] + split_seq(d.mimetype@, '/').last(),
    }
}

/// The gatherer's media for a media record of the site, or `None` when the
/// record has no details or no location.
pub fn fansly_media_to_gatherers_media(media: Media, user_name: &str) -> (r: Option<gatherers::Media>)
    ensures
        r is Some <==> media_available(media),
        r matches Some(m) ==> {
            let d = media.details.unwrap();
            &&& m.file_name@ == saved_file_name(d)
            &&& m.url@ == d.locations@[0].location@
            &&& m.mime_type@ == d.mimetype@
            &&& m.paid == media.purchased
            &&& m.user_name@ == user_name@
        },
{
    match media.details {
        Some(details) => {
            if details.locations.len() == 0 {
                return None;
            }
            let has_name = match &details.file_name {
                Some(f) => chars_of(f.as_str()).len() > 0,
                None => false,
            };
            let file_name = if has_name {
                match &details.file_name {
                    Some(f) => f.clone(),
                    None => String::new(),
                }
            } else {
                let mime = chars_of(details.mimetype.as_str());
                let pieces = split_chars(&mime, '/');
                proof {
                    lemma_split_nonempty(mime@, '/');
                    assert(char_vecs_view(pieces@)[pieces@.len() - 1] == pieces@[pieces@.len() - 1]@);
                }
                let mut n = details.id.clone();
                n.append(".");
                let last = string_of(pieces[pieces.len() - 1].as_slice());
                n.append(last.as_str());
                proof {
                    reveal_strlit(".");
                }
                n
            };
            proof {
                match details.file_name {
                    Some(f) => {
                        if f@.len() > 0 {
                            assert(has_name);
                        }
                    },
                    None => {},
                }
                assert(file_name@ =~= saved_file_name(details));
            }
            Some(
                gatherers::Media {
                    file_name,
                    paid: media.purchased,
                    mime_type: details.mimetype.clone(),
                    url: details.locations[0].location.clone(),
                    user_name: user_name.to_owned(),
                },
            )
        },
        None => None,
    }
}

/// The first account with the id `id`.
pub open spec fn find_account(accounts: Seq<Account>, id: Seq<char>) -> Option<Account>
    decreases accounts.len(),
{
    if accounts.len() == 0 {
        None
    } else if accounts[0].id@ == id {
        Some(accounts[0])
    } else {
        find_account(accounts.drop_first(), id)
    }
}

/// The subscriptions whose account is known, each with its account, in order.
pub open spec fn matched_subscriptions(subs: Seq<Subscription>, accounts: Seq<Account>) -> Seq<(Subscription, Account)>
    decreases subs.len(),
{
    if subs.len() == 0 {
        Seq::empty()
    } else {
        let r = matched_subscriptions(subs.drop_last(), accounts);
        match find_account(accounts, subs.last().account_id@) {
            Some(a) => r.push((subs.last(), a)),
            None => r,
        }
    }
}

/// The plan a subscription is shown with: its tier's name, or `Unknown`.
pub open spec fn plan_name(sub: Subscription) -> Seq<char> {
    match sub.subscription_tier_name {
        Some(t) => t@,
        None => seq!['U', 'n', 'k', 'n', 'o', 'w', 'n'],
    }
}

/// `r` is the gatherer's subscription for the site's subscription `sub` to
/// the account `acc`.
pub open spec fn combined_subscription(r: gatherers::Subscription, sub: Subscription, acc: Account) -> bool {
    &&& r.id@ == acc.id@
    &&& r.name.username@ == acc.username@
    &&& r.name.display_name == acc.display_name
    &&& r.plan@ == plan_name(sub)
    &&& r.started == Some(DateTime(Some(sub.created_at)))
    &&& r.renewal_date == Some(DateTime(Some(sub.renew_date)))
    &&& r.ends_at == Some(DateTime(Some(sub.ends_at)))
    &&& r.rewewal_price == SubscriptionCost(Some(sub.price))
    &&& match acc.timeline_stats {
        Some(s) => r.video_count == s.video_count && r.image_count == s.image_count && r.bundle_count
            == s.bundle_count,
        None => r.video_count == 0 && r.image_count == 0 && r.bundle_count == 0,
    }
}

/// The dates of a subscription can be represented.
pub open spec fn subscription_dates_in_range(sub: Subscription) -> bool {
    &&& timestamp_in_range(sub.created_at)
    &&& timestamp_in_range(sub.renew_date)
    &&& timestamp_in_range(sub.ends_at)
}

/// The subscriptions whose account is among `accounts` have dates that can be
/// represented.
pub open spec fn matched_dates_in_range(subs: Seq<Subscription>, accounts: Seq<Account>) -> bool {
    forall|i: int|
        0 <= i < subs.len() && (#[trigger] find_account(accounts, subs[i].account_id@)) is Some
            ==> subscription_dates_in_range(subs[i])
}

/// Whether the dates of the subscriptions with a known account can be
/// represented, as `combine_subs_and_account_info` needs.
pub fn matched_dates_fit(subs: &Vec<Subscription>, accounts: &Vec<Account>) -> (b: bool)
    ensures
        b == matched_dates_in_range(subs@, accounts@),
{
    let mut i: usize = 0;
    while i < subs.len()
        invariant
            i <= subs.len(),
            forall|k: int|
                0 <= k < i && (#[trigger] find_account(accounts@, subs@[k].account_id@)) is Some
                    ==> subscription_dates_in_range(subs@[k]),
        decreases subs.len() - i,
    {
        let sub = &subs[i];
        match find_account_index(accounts, &sub.account_id) {
            Some(_) => {
                if !(timestamp_fits(sub.created_at) && timestamp_fits(sub.renew_date) && timestamp_fits(sub.ends_at)) {
                    assert(find_account(accounts@, subs@[i as int].account_id@) is Some);
                    return false;
                }
            },
            None => {},
        }
        i = i + 1;
    }
    true
}

/// The gatherer's subscriptions: one for each of the site's subscriptions whose
/// account is among `accounts`, built from the first such account, in order.
/// The dates of those subscriptions must be representable.
pub fn combine_subs_and_account_info(subs: &Vec<Subscription>, accounts: &Vec<Account>) -> (r: Vec<gatherers::Subscription>)
    requires
        matched_dates_in_range(subs@, accounts@),
    ensures
        r@.len() == matched_subscriptions(subs@, accounts@).len(),
        forall|i: int|
            0 <= i < r@.len() ==> combined_subscription(
                #[trigger] r@[i],
                matched_subscriptions(subs@, accounts@)[i].0,
                matched_subscriptions(subs@, accounts@)[i].1,
            ),
        forall|i: int|
            0 <= i < r@.len() ==> {
                let sub = matched_subscriptions(subs@, accounts@)[i].0;
                &&& (#[trigger] r@[i]).started == Some(DateTime(Some(sub.created_at)))
                &&& r@[i].renewal_date == Some(DateTime(Some(sub.renew_date)))
                &&& r@[i].ends_at == Some(DateTime(Some(sub.ends_at)))
                &&& r@[i].rewewal_price == SubscriptionCost(Some(sub.price))
            },
{
    let mut r: Vec<gatherers::Subscription> = Vec::new();
    let mut i: usize = 0;
    while i < subs.len()
        invariant
            i <= subs.len(),
            r@.len() == matched_subscriptions(subs@.take(i as int), accounts@).len(),
            forall|k: int|
                0 <= k < r@.len() ==> combined_subscription(
                    #[trigger] r@[k],
                    matched_subscriptions(subs@.take(i as int), accounts@)[k].0,
                    matched_subscriptions(subs@.take(i as int), accounts@)[k].1,
                ),
        decreases subs.len() - i,
    {
        let sub = &subs[i];
        let ghost before = matched_subscriptions(subs@.take(i as int), accounts@);
        assert(subs@.take(i + 1).drop_last() =~= subs@.take(i as int));
        assert(subs@.take(i + 1).last() == subs@[i as int]);
        match find_account_index(accounts, &sub.account_id) {
            Some(j) => {
                let info = &accounts[j];
                let mut video_count: i32 = 0;
                let mut image_count: i32 = 0;
                let mut bundle_count: i32 = 0;
                match &info.timeline_stats {
                    Some(stats) => {
                        video_count = stats.video_count;
                        image_count = stats.image_count;
                        bundle_count = stats.bundle_count;
                    },
                    None => {},
                }
                let plan = match &sub.subscription_tier_name {
                    Some(t) => t.clone(),
                    None => "Unknown".to_owned(),
                };
                proof {
                    reveal_strlit("Unknown");
                }
                let s = gatherers::Subscription {
                    id: info.id.clone(),
                    name: SubscriptionName {
                        username: info.username.clone(),
                        display_name: clone_opt_string(&info.display_name),
                    },
                    plan,
                    started: Some(DateTime(Some(sub.created_at))),
                    renewal_date: Some(DateTime(Some(sub.renew_date))),
                    rewewal_price: SubscriptionCost(Some(sub.price)),
                    ends_at: Some(DateTime(Some(sub.ends_at))),
                    video_count,
                    image_count,
                    bundle_count,
                };
                proof {
                    let sb = subs@[i as int];
                    let ac = accounts@[j as int];
                    assert(s.id@ == ac.id@);
                    assert(s.name.username@ == ac.username@);
                    assert(s.name.display_name == ac.display_name);
                    assert(s.plan@ == plan_name(sb));
                    assert(s.started == Some(DateTime(Some(sb.created_at))));
                    assert(s.rewewal_price == SubscriptionCost(Some(sb.price)));
                    assert(combined_subscription(s, sb, ac));
                }
                r.push(s);
                proof {
                    let m = matched_subscriptions(subs@.take(i + 1), accounts@);
                    assert(m == before.push((subs@[i as int], accounts@[j as int])));
                    assert forall|k: int| 0 <= k < r@.len() implies combined_subscription(
                        #[trigger] r@[k],
                        m[k].0,
                        m[k].1,
                    ) by {
                        if k < r@.len() - 1 {
                            assert(m[k] == before[k]);
                        }
                    }
                }
            },
            None => {
                assert(matched_subscriptions(subs@.take(i + 1), accounts@) == before);
            },
        }
        i = i + 1;
    }
    assert(subs@.take(subs.len() as int) =~= subs@);
    proof {
        assert forall|i: int| 0 <= i < r@.len() implies {
            let sub = matched_subscriptions(subs@, accounts@)[i].0;
            &&& (#[trigger] r@[i]).started == Some(DateTime(Some(sub.created_at)))
            &&& r@[i].renewal_date == Some(DateTime(Some(sub.renew_date)))
            &&& r@[i].ends_at == Some(DateTime(Some(sub.ends_at)))
            &&& r@[i].rewewal_price == SubscriptionCost(Some(sub.price))
        } by {
            law_combined_subscription_dates(
                r@[i],
                matched_subscriptions(subs@, accounts@)[i].0,
                matched_subscriptions(subs@, accounts@)[i].1,
            );
        }
    }
    r
}

/// A listed subscription starts when the site's subscription was made, renews
/// and ends on the site's renewal and end dates, costs the site's price, and
/// carries the account's id and names, whatever else the site's subscription
/// holds (such as the time it was last updated).
pub proof fn law_combined_subscription_dates(r: gatherers::Subscription, sub: Subscription, acc: Account)
    requires
        combined_subscription(r, sub, acc),
    ensures
        r.started == Some(DateTime(Some(sub.created_at))),
        r.renewal_date == Some(DateTime(Some(sub.renew_date))),
        r.ends_at == Some(DateTime(Some(sub.ends_at))),
        r.rewewal_price == SubscriptionCost(Some(sub.price)),
        r.id@ == acc.id@,
        r.name.username@ == acc.username@,
        r.name.display_name == acc.display_name,
{
}

/// The index of the first account with the id `id`.
fn find_account_index(accounts: &Vec<Account>, id: &String) -> (r: Option<usize>)
    ensures
        r is None ==> find_account(accounts@, id@) is None,
        r matches Some(j) ==> j < accounts@.len() && find_account(accounts@, id@) == Some(accounts@[j as int]),
{
    let mut i: usize = 0;
    assert(accounts@.skip(0) =~= accounts@);
    while i < accounts.len()
        invariant
            i <= accounts.len(),
            find_account(accounts@, id@) == find_account(accounts@.skip(i as int), id@),
        decreases accounts.len() - i,
    {
        let ghost rest = accounts@.skip(i as int);
        assert(rest[0] == accounts@[i as int]);
        assert(rest.drop_first() =~= accounts@.skip(i + 1));
        if accounts[i].id == *id {
            return Some(i);
        }
        i = i + 1;
    }
    assert(accounts@.skip(accounts.len() as int) =~= Seq::<Account>::empty());
    None
}

/// The gatherer's media for the details of a media record: named by the
/// details' file name (empty when there is none) and fetched from the first
/// location; details without a location are not available.
pub fn media_from_details(details: MediaDetails) -> (r: Result<gatherers::Media, String>)
    ensures
        r is Ok <==> details.locations@.len() > 0,
        r matches Ok(m) ==> {
            &&& m.file_name@ == text_or_empty(details.file_name)
            &&& m.url@ == details.locations@[0].location@
            &&& m.mime_type@ == details.mimetype@
            &&& !m.paid
            &&& m.user_name@ == Seq::<char>::empty()
        },
        r matches Err(e) ==> e@.take(23) == "Content not available: "@,
{
    if details.locations.len() == 0 {
        let shown = details_debug(&details);
        let mut message = "Content not available: ".to_owned();
        message.append(shown.as_str());
        proof {
            reveal_strlit("Content not available: ");
            assert(message@.take(23) =~= "Content not available: "@);
        }
        return Err(message);
    }
    let file_name = match &details.file_name {
        Some(f) => f.clone(),
        None => String::new(),
    };
    Ok(
        gatherers::Media {
            file_name,
            paid: false,
            mime_type: details.mimetype.clone(),
            url: details.locations[0].location.clone(),
            user_name: String::new(),
        },
    )
}

} // verus!
