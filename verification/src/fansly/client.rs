//! The site's endpoints, the decisions of its paged calls, and the
//! selections made from its responses.

use vstd::prelude::*;

use super::gatherer::{
    fansly_media_to_gatherers_media, find_account, media_available, saved_file_name, text_or_empty,
    to_gatherer_media, extension_suffix, file_name_suffix, plain_file_name,
};
use super::responses::inner::Posts;
use super::structs::{Account, FollowedAccount, Media, Message, MessageGroup, Subscription, WalletTransaction};
use crate::gatherers;
use crate::text::{join_seq, join_strings, strings_view, i64_decimal, signed_decimal_seq, string_of, decimal_seq, u64_decimal};

verus! {

pub const USER_ACCOUNT_URL: &'static str = "https://apiv2.fansly.com/api/v1/account";

pub const STATUS_URL: &'static str = "https://apiv2.fansly.com/api/v1/status";

pub const SUBS_URL: &'static str = "https://apiv2.fansly.com/api/v1/subscriptions";

pub const TIMELINE_URL: &'static str = "https://apiv2.fansly.com/api/v1/timeline";

pub const MEDIA_URL: &'static str = "https://apiv2.fansly.com/api/v1/account/media";

pub const MEDIA_BUNDLE_URL: &'static str = "https://apiv2.fansly.com/api/v1/account/media/bundle";

pub const MESSAGE_GROUPS_URL: &'static str = "https://apiv2.fansly.com/api/v1/group";

pub const GROUP_MESSAGES_URL: &'static str = "https://apiv2.fansly.com/api/v1/message";

pub const USER_STORIES_URL: &'static str = "https://apiv2.fansly.com/api/v1/mediastories";

/// How many messages one page of a message group holds.
pub const GROUP_MESSAGES_LIMIT: usize = 50;

/// How many media ids one media call asks about.
pub const MEDIA_IDS_PER_CALL: usize = 100;

/// The comma that separates ids in a query.
pub open spec fn comma() -> Seq<char> {
    seq![',']
}

fn join_ids(ids: &Vec<String>) -> (s: String)
    ensures
        s@ == join_seq(strings_view(ids@), comma()),
{
    let s = join_strings(ids, ",");
    proof {
        reveal_strlit(",");
        assert(","@ =~= comma());
    }
    s
}

/// The call for the accounts with the given ids.
pub fn accounts_by_ids_url(account_ids: &Vec<String>) -> (u: String)
    ensures
        u@ == USER_ACCOUNT_URL@ + "?ids="@ + join_seq(strings_view(account_ids@), comma()),
{
    let mut u = USER_ACCOUNT_URL.to_owned();
    u.append("?ids=");
    let ids = join_ids(account_ids);
    u.append(ids.as_str());
    u
}

/// The call for the accounts with the given user names.
pub fn accounts_by_names_url(names: &Vec<String>) -> (u: String)
    ensures
        u@ == USER_ACCOUNT_URL@ + "?usernames="@ + join_seq(strings_view(names@), comma()),
{
    let mut u = USER_ACCOUNT_URL.to_owned();
    u.append("?usernames=");
    let ids = join_ids(names);
    u.append(ids.as_str());
    u
}

/// The call for the bundles with the given ids.
pub fn media_bundles_url(bundle_ids: &Vec<String>) -> (u: String)
    ensures
        u@ == MEDIA_BUNDLE_URL@ + "?ids="@ + join_seq(strings_view(bundle_ids@), comma()),
{
    let mut u = MEDIA_BUNDLE_URL.to_owned();
    u.append("?ids=");
    let ids = join_ids(bundle_ids);
    u.append(ids.as_str());
    u
}

/// The call for the accounts the user follows (it asks the bundle endpoint,
/// with a limit of 100 from offset 0).
pub fn followed_accounts_url() -> (u: String)
    ensures
        u@ == MEDIA_BUNDLE_URL@ + "?limit=100&offset=0"@,
{
    let mut u = MEDIA_BUNDLE_URL.to_owned();
    u.append("?limit=100&offset=0");
    u
}

/// The call for the stories of an account.
pub fn account_stories_url(account_id: &str) -> (u: String)
    ensures
        u@ == USER_STORIES_URL@ + "?accountId="@ + account_id@,
{
    let mut u = USER_STORIES_URL.to_owned();
    u.append("?accountId=");
    u.append(account_id);
    u
}

/// The call for the timeline page of an account before the post `before`.
pub fn timeline_url(account_id: &str, before: &str) -> (u: String)
    ensures
        u@ == TIMELINE_URL@ + "/"@ + account_id@ + "?before="@ + before@ + "&after=0"@,
{
    let mut u = TIMELINE_URL.to_owned();
    u.append("/");
    u.append(account_id);
    u.append("?before=");
    u.append(before);
    u.append("&after=0");
    u
}

/// The call for a page of the messages of a group, before the time `before`
/// when it is given.
pub fn group_messages_url(group_id: &str, before: Option<i64>) -> (u: String)
    ensures
        before is None ==> u@ == GROUP_MESSAGES_URL@ + "?groupId="@ + group_id@ + "&limit=50"@,
        before matches Some(b) ==> u@ == GROUP_MESSAGES_URL@ + "?groupId="@ + group_id@
            + "&limit=50"@ + "&before="@ + signed_decimal_seq(b as int),
{
    let mut u = GROUP_MESSAGES_URL.to_owned();
    u.append("?groupId=");
    u.append(group_id);
    u.append("&limit=50");
    match before {
        Some(b) => {
            u.append("&before=");
            let d = string_of(i64_decimal(b).as_slice());
            u.append(d.as_str());
        },
        None => {},
    }
    u
}

/// The call for the page of wallet transactions from `offset`.
pub fn wallet_transactions_url(offset: usize) -> (u: String)
    ensures
        u@ == "/api/v1/account/wallets/transactions?before=&after=&limit=10&offset="@ + decimal_seq(
            offset as nat,
        ),
{
    let mut u = "/api/v1/account/wallets/transactions?before=&after=&limit=10&offset=".to_owned();
    let d = string_of(u64_decimal(offset as u64).as_slice());
    u.append(d.as_str());
    u
}

/// The ids of the `k`-th media call: at most 100 ids from the `k`-th hundred.
pub open spec fn media_chunk(ids: Seq<Seq<char>>, k: int) -> Seq<Seq<char>> {
    ids.subrange(100 * k, if 100 * k + 100 < ids.len() { 100 * k + 100 } else { ids.len() as int })
}

/// The media calls for the ids: one for each hundred of them, none when there
/// are none.
pub fn media_urls(media_ids: &Vec<String>) -> (urls: Vec<String>)
    ensures
        urls@.len() == (media_ids@.len() + 99) / 100,
        forall|k: int|
            0 <= k < urls@.len() ==> (#[trigger] urls@[k])@ == MEDIA_URL@ + "?ids="@ + join_seq(
                media_chunk(strings_view(media_ids@), k),
                comma(),
            ),
{
    let n = media_ids.len();
    let mut urls: Vec<String> = Vec::new();
    let mut start: usize = 0;
    let ghost mut k: int = 0;
    while start < n
        invariant
            n == media_ids.len(),
            k >= 0,
            start == if 100 * k < n { 100 * k } else { n as int },
            k > 0 ==> 100 * (k - 1) < n,
            urls@.len() == k,
            forall|q: int|
                0 <= q < urls@.len() ==> (#[trigger] urls@[q])@ == MEDIA_URL@ + "?ids="@ + join_seq(
                    media_chunk(strings_view(media_ids@), q),
                    comma(),
                ),
        decreases n - start,
    {
        let end = if n - start > 100 {
            start + 100
        } else {
            n
        };
        let mut chunk: Vec<String> = Vec::new();
        let mut i: usize = start;
        while i < end
            invariant
                start <= i <= end <= n,
                n == media_ids.len(),
                strings_view(chunk@) == strings_view(media_ids@).subrange(start as int, i as int),
            decreases end - i,
        {
            let ghost before = strings_view(chunk@);
            chunk.push(media_ids[i].clone());
            assert(strings_view(chunk@) =~= before.push(media_ids@[i as int]@));
            assert(strings_view(chunk@) =~= strings_view(media_ids@).subrange(start as int, i + 1));
            i = i + 1;
        }
        let mut u = MEDIA_URL.to_owned();
        u.append("?ids=");
        let ids = join_ids(&chunk);
        u.append(ids.as_str());
        assert(strings_view(chunk@) == media_chunk(strings_view(media_ids@), k));
        urls.push(u);
        start = end;
        proof {
            k = k + 1;
        }
    }
    assert(urls@.len() == (n + 99) / 100) by (nonlinear_arith)
        requires
            urls@.len() == k,
            k > 0 ==> 100 * (k - 1) < n,
            100 * k >= n,
            k >= 0,
    ;
    urls
}

/// The ids of the first `k` media calls, one call after the other.
pub open spec fn chunks_joined(ids: Seq<Seq<char>>, k: nat) -> Seq<Seq<char>>
    decreases k,
{
    if k == 0 {
        Seq::empty()
    } else {
        chunks_joined(ids, (k - 1) as nat) + media_chunk(ids, k - 1)
    }
}

proof fn lemma_chunks_joined_prefix(ids: Seq<Seq<char>>, k: nat)
    requires
        k == 0 || 100 * (k - 1) < ids.len(),
    ensures
        chunks_joined(ids, k) == ids.take(if 100 * k < ids.len() { (100 * k) as int } else { ids.len() as int }),
    decreases k,
{
    if k == 0 {
        assert(ids.take(0) =~= Seq::<Seq<char>>::empty());
    } else {
        let j = (k - 1) as nat;
        lemma_chunks_joined_prefix(ids, j);
        let start = (100 * j) as int;
        let end = if 100 * k < ids.len() { (100 * k) as int } else { ids.len() as int };
        assert(ids.take(start) + ids.subrange(start, end) =~= ids.take(end));
    }
}

/// The media calls ask about every id once, in order: the ids of the calls,
/// one call after the other, are the ids given.
pub proof fn law_media_calls_cover_ids(ids: Seq<Seq<char>>)
    ensures
        chunks_joined(ids, ((ids.len() + 99) / 100) as nat) == ids,
{
    let n = ids.len();
    let k = ((n + 99) / 100) as nat;
    assert(k == 0 || 100 * (k - 1) < n) by (nonlinear_arith)
        requires
            k == (n + 99) / 100,
    ;
    assert(100 * k >= n) by (nonlinear_arith)
        requires
            k == (n + 99) / 100,
    ;
    lemma_chunks_joined_prefix(ids, k);
    assert(ids.take(n as int) =~= ids);
}

/// The decision after a page of a timeline.
#[derive(Debug)]
pub struct TimelineStep {
    /// No more pages are to be asked for.
    pub finished: bool,
    /// The page is kept.
    pub keep_page: bool,
    /// The post to ask for the next page before, when the page names one.
    pub before: Option<String>,
}

/// The page says nothing at all.
pub open spec fn page_is_blank(page: Posts) -> bool {
    &&& page.account_media is None
    &&& page.account_media_bundles is None
    &&& page.aggregated_posts is None
    &&& page.posts is None
    &&& page.stories is None
}

/// What to do after a timeline page: stop at a blank page (and drop it);
/// keep a page that lists posts, and stop after it when it lists none; the
/// next page is asked for before the last post listed.
pub fn timeline_step(page: &Posts) -> (s: TimelineStep)
    ensures
        page_is_blank(*page) ==> s.finished && !s.keep_page,
        !page_is_blank(*page) ==> s.keep_page == (page.posts is Some) && s.finished == (page.posts matches Some(v)
            && v@.len() == 0),
        s.before is Some <==> !page_is_blank(*page) && (page.posts matches Some(v) && v@.len() > 0),
        s.before matches Some(b) ==> (page.posts matches Some(v) && b@ == v@.last().id@),
{
    if page.account_media.is_none() && page.account_media_bundles.is_none()
        && page.aggregated_posts.is_none() && page.posts.is_none() && page.stories.is_none() {
        return TimelineStep { finished: true, keep_page: false, before: None };
    }
    match &page.posts {
        Some(posts) => {
            let n = posts.len();
            let before = if n > 0 {
                Some(posts[n - 1].id.clone())
            } else {
                None
            };
            TimelineStep { finished: n == 0, keep_page: true, before }
        },
        None => TimelineStep { finished: false, keep_page: false, before: None },
    }
}

/// What to do after a page of messages: there are more when the page is full;
/// the next page is asked for before the time of the last message.
pub fn group_messages_step(messages: &Vec<Message>) -> (r: (bool, Option<i64>))
    ensures
        r.0 == (messages@.len() == 50),
        messages@.len() == 0 ==> r.1 is None,
        messages@.len() > 0 ==> r.1 == Some(messages@.last().created_at),
{
    let n = messages.len();
    let before = if n > 0 {
        Some(messages[n - 1].created_at)
    } else {
        None
    };
    (n == GROUP_MESSAGES_LIMIT, before)
}

/// What to do after a page of wallet transactions: the next page starts after
/// the transactions of this one, and the walk stops once as many transactions
/// as the site reports in all have been collected.
pub fn transactions_page_step(offset: usize, page_len: usize, collected: usize, total: u64) -> (r: (
    usize,
    bool,
))
    requires
        offset + page_len <= usize::MAX,
    ensures
        r.0 == offset + page_len,
        r.1 == (collected >= total),
{
    (offset + page_len, collected as u64 >= total)
}

/// The accounts of the active subscriptions (status 3), in order.
pub open spec fn active_account_ids(subs: Seq<Subscription>) -> Seq<Seq<char>>
    decreases subs.len(),
{
    if subs.len() == 0 {
        Seq::empty()
    } else {
        let r = active_account_ids(subs.drop_last());
        if subs.last().status == 3 {
            r.push(subs.last().account_id@)
        } else {
            r
        }
    }
}

/// The accounts of the active subscriptions, in order.
pub fn subscribed_account_ids(subs: &Vec<Subscription>) -> (r: Vec<String>)
    ensures
        strings_view(r@) == active_account_ids(subs@),
{
    let mut r: Vec<String> = Vec::new();
    let mut i: usize = 0;
    while i < subs.len()
        invariant
            i <= subs.len(),
            strings_view(r@) == active_account_ids(subs@.take(i as int)),
        decreases subs.len() - i,
    {
        assert(subs@.take(i + 1).drop_last() =~= subs@.take(i as int));
        let ghost before = strings_view(r@);
        if subs[i].status == 3 {
            r.push(subs[i].account_id.clone());
            assert(strings_view(r@) =~= before.push(subs@[i as int].account_id@));
        }
        i = i + 1;
    }
    assert(subs@.take(subs.len() as int) =~= subs@);
    r
}

/// The accounts the user follows, in order.
pub fn followed_account_ids(stubs: &Vec<FollowedAccount>) -> (r: Vec<String>)
    ensures
        strings_view(r@) == stubs@.map_values(|s: FollowedAccount| s.account_id@),
{
    let mut r: Vec<String> = Vec::new();
    let mut i: usize = 0;
    while i < stubs.len()
        invariant
            i <= stubs.len(),
            strings_view(r@) == stubs@.take(i as int).map_values(|s: FollowedAccount| s.account_id@),
        decreases stubs.len() - i,
    {
        let ghost before = strings_view(r@);
        r.push(stubs[i].account_id.clone());
        assert(strings_view(r@) =~= before.push(stubs@[i as int].account_id@));
        assert(stubs@.take(i + 1).map_values(|s: FollowedAccount| s.account_id@) =~= stubs@.take(
            i as int,
        ).map_values(|s: FollowedAccount| s.account_id@).push(stubs@[i as int].account_id@));
        i = i + 1;
    }
    assert(stubs@.take(stubs.len() as int) =~= stubs@);
    r
}

/// The group has the user among its members.
pub open spec fn group_has_user(g: MessageGroup, user_id: Seq<char>) -> bool {
    exists|k: int| 0 <= k < g.users@.len() && g.users@[k].user_id@ == user_id
}

/// The groups with the user among their members, in order.
pub open spec fn groups_with_user(groups: Seq<MessageGroup>, user_id: Seq<char>) -> Seq<MessageGroup>
    decreases groups.len(),
{
    if groups.len() == 0 {
        groups
    } else {
        let r = groups_with_user(groups.drop_last(), user_id);
        if group_has_user(groups.last(), user_id) {
            r.push(groups.last())
        } else {
            r
        }
    }
}

fn has_user(g: &MessageGroup, user_id: &String) -> (b: bool)
    ensures
        b == group_has_user(*g, user_id@),
{
    let mut k: usize = 0;
    while k < g.users.len()
        invariant
            k <= g.users.len(),
            forall|j: int| 0 <= j < k ==> g.users@[j].user_id@ != user_id@,
        decreases g.users.len() - k,
    {
        if g.users[k].user_id == *user_id {
            return true;
        }
        k = k + 1;
    }
    false
}

/// A thread is kept exactly when some member, at any place in its list of
/// members, has the user's id; the kept threads stay in their order.
pub proof fn law_threads_kept_by_any_member(groups: Seq<MessageGroup>, user_id: Seq<char>)
    ensures
        groups_with_user(groups, user_id) == groups.filter(
            |g: MessageGroup| exists|k: int| 0 <= k < g.users@.len() && #[trigger] g.users@[k].user_id@ == user_id,
        ),
    decreases groups.len(),
{
    reveal_with_fuel(Seq::<MessageGroup>::filter, 1);
    if groups.len() > 0 {
        law_threads_kept_by_any_member(groups.drop_last(), user_id);
    }
}

/// The message threads the user of a subscription takes part in, in order.
pub fn subscription_threads(groups: Vec<MessageGroup>, user_id: &str) -> (r: Vec<MessageGroup>)
    ensures
        r@ == groups_with_user(groups@, user_id@),
{
    let uid = user_id.to_owned();
    let mut groups = groups;
    let ghost all = groups@;
    let mut r: Vec<MessageGroup> = Vec::new();
    let mut i: usize = 0;
    let n = groups.len();
    while groups.len() > 0
        invariant
            groups@.len() + i == n,
            n == all.len(),
            groups@ == all.subrange(i as int, n as int),
            r@ == groups_with_user(all.take(i as int), uid@),
            uid@ == user_id@,
        decreases groups@.len(),
    {
        let g = groups.remove(0);
        assert(all.take(i + 1).drop_last() =~= all.take(i as int));
        assert(all.take(i + 1).last() == g);
        assert(groups@ =~= all.subrange(i + 1, n as int));
        if has_user(&g, &uid) {
            r.push(g);
        }
        i = i + 1;
    }
    assert(all.take(n as int) =~= all);
    r
}

/// The amounts paid to known accounts: for each completed transaction (status
/// 2) to a receiver among `accounts`, its amount and the first such account's
/// user name, in order.
pub open spec fn paid_amounts(ts: Seq<WalletTransaction>, accounts: Seq<Account>) -> Seq<(i64, Seq<char>)>
    decreases ts.len(),
{
    if ts.len() == 0 {
        Seq::empty()
    } else {
        let r = paid_amounts(ts.drop_last(), accounts);
        let t = ts.last();
        if t.status == 2 {
            match t.receiver_id {
                Some(rid) => match find_account(accounts, rid@) {
                    Some(a) => r.push((t.amount, a.username@)),
                    None => r,
                },
                None => r,
            }
        } else {
            r
        }
    }
}

fn account_index(accounts: &Vec<Account>, id: &String) -> (r: Option<usize>)
    ensures
        r is None ==> find_account(accounts@, id@) is None,
        r matches Some(j) ==> j < accounts@.len() && find_account(accounts@, id@) == Some(accounts@[j as int]),
{
    let mut i: usize = 0;
    assert(accounts@.skip(0) =~= accounts@);
    while i < accounts.len()
        invariant
            i <= accounts.len(),
            find_account(accounts@, id@) == find_account(accounts@.skip(i as int), id@),
        decreases accounts.len() - i,
    {
        let ghost rest = accounts@.skip(i as int);
        assert(rest[0] == accounts@[i as int]);
        assert(rest.drop_first() =~= accounts@.skip(i + 1));
        if accounts[i].id == *id {
            return Some(i);
        }
        i = i + 1;
    }
    assert(accounts@.skip(accounts.len() as int) =~= Seq::<Account>::empty());
    None
}

/// The payments listed are the completed transactions (status 2) to a receiver
/// among the accounts, in order, each with the transaction's own amount and the
/// user name of the first account with the receiver's id.
pub proof fn law_paid_amounts_are_completed_amounts(ts: Seq<WalletTransaction>, accounts: Seq<Account>)
    ensures
        paid_amounts(ts, accounts) == ts.filter(
            |t: WalletTransaction|
                t.status == 2 && t.receiver_id is Some && find_account(accounts, t.receiver_id->Some_0@) is Some,
        ).map_values(
            |t: WalletTransaction| (t.amount, find_account(accounts, t.receiver_id->Some_0@)->Some_0.username@),
        ),
    decreases ts.len(),
{
    reveal_with_fuel(Seq::<WalletTransaction>::filter, 1);
    let pred = |t: WalletTransaction|
        t.status == 2 && t.receiver_id is Some && find_account(accounts, t.receiver_id->Some_0@) is Some;
    let f = |t: WalletTransaction| (t.amount, find_account(accounts, t.receiver_id->Some_0@)->Some_0.username@);
    if ts.len() > 0 {
        law_paid_amounts_are_completed_amounts(ts.drop_last(), accounts);
        let sub = ts.drop_last().filter(pred);
        if pred(ts.last()) {
            assert(sub.push(ts.last()).map_values(f) =~= sub.map_values(f).push(f(ts.last())));
        }
    } else {
        assert(ts.filter(pred).map_values(f) =~= Seq::<(i64, Seq<char>)>::empty());
    }
}

/// The amounts paid to known accounts, with the accounts' user names; the
/// amounts are in thousandths of the currency.
pub fn paid_transactions(transactions: &Vec<WalletTransaction>, accounts: &Vec<Account>) -> (r: Vec<(i64, String)>)
    ensures
        r@.len() == paid_amounts(transactions@, accounts@).len(),
        forall|i: int|
            0 <= i < r@.len() ==> (#[trigger] r@[i]).0 == paid_amounts(transactions@, accounts@)[i].0
                && r@[i].1@ == paid_amounts(transactions@, accounts@)[i].1,
{
    let mut r: Vec<(i64, String)> = Vec::new();
    let mut i: usize = 0;
    while i < transactions.len()
        invariant
            i <= transactions.len(),
            r@.len() == paid_amounts(transactions@.take(i as int), accounts@).len(),
            forall|k: int|
                0 <= k < r@.len() ==> (#[trigger] r@[k]).0 == paid_amounts(
                    transactions@.take(i as int),
                    accounts@,
                )[k].0 && r@[k].1@ == paid_amounts(transactions@.take(i as int), accounts@)[k].1,
        decreases transactions.len() - i,
    {
        assert(transactions@.take(i + 1).drop_last() =~= transactions@.take(i as int));
        let ghost before = paid_amounts(transactions@.take(i as int), accounts@);
        let t = &transactions[i];
        if t.status == 2 {
            match &t.receiver_id {
                Some(rid) => match account_index(accounts, rid) {
                    Some(j) => {
                        r.push((t.amount, accounts[j].username.clone()));
                        proof {
                            let now = paid_amounts(transactions@.take(i + 1), accounts@);
                            assert(now == before.push((t.amount, accounts@[j as int].username@)));
                            assert forall|k: int| 0 <= k < r@.len() implies (#[trigger] r@[k]).0
                                == now[k].0 && r@[k].1@ == now[k].1 by {
                                if k < r@.len() - 1 {
                                    assert(now[k] == before[k]);
                                }
                            }
                        }
                    },
                    None => {},
                },
                None => {},
            }
        }
        i = i + 1;
    }
    assert(transactions@.take(transactions.len() as int) =~= transactions@);
    r
}

/// The amounts and account names of payments, by their text.
pub open spec fn payments_view(paid: Seq<(i64, String)>) -> Seq<(i64, Seq<char>)> {
    paid.map_values(|p: (i64, String)| (p.0, p.1@))
}

/// Some payment went to `name`.
pub open spec fn has_payee(paid: Seq<(i64, Seq<char>)>, name: Seq<char>) -> bool {
    exists|i: int| 0 <= i < paid.len() && #[trigger] paid[i].1 == name
}

/// The sum of the amounts paid to `name`.
pub open spec fn amounts_to(paid: Seq<(i64, Seq<char>)>, name: Seq<char>) -> int
    decreases paid.len(),
{
    if paid.len() == 0 {
        0
    } else {
        amounts_to(paid.drop_last(), name) + if paid.last().1 == name {
            paid.last().0 as int
        } else {
            0
        }
    }
}

/// The first amount paid to `name`, zero when nothing was.
pub open spec fn first_amount_to(paid: Seq<(i64, Seq<char>)>, name: Seq<char>) -> int
    decreases paid.len(),
{
    if paid.len() == 0 {
        0
    } else if has_payee(paid.drop_last(), name) {
        first_amount_to(paid.drop_last(), name)
    } else if paid.last().1 == name {
        paid.last().0 as int
    } else {
        0
    }
}

/// The names paid, each once, in the order of their first payment.
pub open spec fn payees(paid: Seq<(i64, Seq<char>)>) -> Seq<Seq<char>>
    decreases paid.len(),
{
    if paid.len() == 0 {
        Seq::empty()
    } else if has_payee(paid.drop_last(), paid.last().1) {
        payees(paid.drop_last())
    } else {
        payees(paid.drop_last()).push(paid.last().1)
    }
}

/// The total kept for `name`: its first amount counts twice, since the tally
/// starts at the first amount and then adds every amount, the first included.
pub open spec fn payee_total(paid: Seq<(i64, Seq<char>)>, name: Seq<char>) -> int {
    first_amount_to(paid, name) + amounts_to(paid, name)
}

proof fn lemma_payees_contains(paid: Seq<(i64, Seq<char>)>, name: Seq<char>)
    ensures
        payees(paid).contains(name) <==> has_payee(paid, name),
        !has_payee(paid, name) ==> amounts_to(paid, name) == 0 && first_amount_to(paid, name) == 0,
    decreases paid.len(),
{
    if paid.len() > 0 {
        let init = paid.drop_last();
        lemma_payees_contains(init, name);
        lemma_payees_contains(init, paid.last().1);
        if has_payee(init, name) {
            let i = choose|i: int| 0 <= i < init.len() && #[trigger] init[i].1 == name;
            assert(paid[i].1 == name);
        }
        if has_payee(paid, name) && !has_payee(init, name) {
            let i = choose|i: int| 0 <= i < paid.len() && #[trigger] paid[i].1 == name;
            if i < init.len() {
                assert(init[i].1 == name);
            }
            assert(paid.last().1 == name);
        }
        if paid.last().1 == name {
            assert(paid[paid.len() - 1].1 == name);
        }
        if !has_payee(init, paid.last().1) {
            let p = payees(paid);
            let q = payees(init);
            assert(p == q.push(paid.last().1));
            if q.contains(name) {
                let k = choose|k: int| 0 <= k < q.len() && q[k] == name;
                assert(p[k] == name);
            }
            if paid.last().1 == name {
                assert(p[q.len() as int] == name);
            }
            if p.contains(name) {
                let k = choose|k: int| 0 <= k < p.len() && p[k] == name;
                if k < q.len() {
                    assert(q[k] == name);
                }
            }
        } else {
            if paid.last().1 == name {
                assert(has_payee(init, name));
            }
        }
        if !has_payee(paid, name) {
            assert(paid.last().1 != name) by {
                if paid.last().1 == name {
                    assert(paid[paid.len() - 1].1 == name);
                }
            }
            assert(!has_payee(init, name)) by {
                if has_payee(init, name) {
                    let i = choose|i: int| 0 <= i < init.len() && #[trigger] init[i].1 == name;
                    assert(paid[i].1 == name);
                }
            }
        }
    }
}

/// The payees of the payments, in the order of their first payment, each with
/// its total in thousandths. The tally of a payee starts at its first amount
/// and then adds every amount, so the first amount counts twice.
pub fn transaction_totals(paid: &Vec<(i64, String)>) -> (r: Vec<(String, i128)>)
    ensures
        r@.len() == payees(payments_view(paid@)).len(),
        forall|k: int|
            0 <= k < r@.len() ==> (#[trigger] r@[k]).0@ == payees(payments_view(paid@))[k] && r@[k].1
                == payee_total(payments_view(paid@), r@[k].0@),
{
    let ghost pv = payments_view(paid@);
    let mut names: Vec<String> = Vec::new();
    let mut totals: Vec<i128> = Vec::new();
    let mut i: usize = 0;
    while i < paid.len()
        invariant
            i <= paid.len(),
            pv == payments_view(paid@),
            names@.len() == totals@.len(),
            strings_view(names@) == payees(pv.take(i as int)),
            forall|k: int|
                0 <= k < totals@.len() ==> #[trigger] totals@[k] == payee_total(
                    pv.take(i as int),
                    names@[k]@,
                ),
            forall|k: int|
                0 <= k < totals@.len() ==> -(i + 1) * 0x8000_0000_0000_0000 <= #[trigger] totals@[k]
                    <= (i + 1) * 0x7fff_ffff_ffff_ffff,
        decreases paid.len() - i,
    {
        let ghost pre = pv.take(i as int);
        let ghost post = pv.take(i + 1);
        let amount = paid[i].0;
        let name = &paid[i].1;
        assert(post.drop_last() =~= pre);
        assert(post.last() == (amount, name@));
        proof {
            lemma_payees_contains(pre, name@);
        }
        let mut j: usize = 0;
        while j < names.len()
            invariant
                j <= names.len(),
                forall|k: int| 0 <= k < j ==> names@[k]@ != name@,
            ensures
                j <= names.len(),
                forall|k: int| 0 <= k < j ==> names@[k]@ != name@,
                j < names.len() ==> names@[j as int]@ == name@,
            decreases names.len() - j,
        {
            if names[j] == *name {
                break;
            }
            j = j + 1;
        }
        assert(i + 2 <= 0x1_0000_0000_0000_0000);
        assert((i + 2) * 0x7fff_ffff_ffff_ffffint < 0x7fff_ffff_ffff_ffff_ffff_ffff_ffff_ffff) by (nonlinear_arith)
            requires
                i + 2 <= 0x1_0000_0000_0000_0000,
        ;
        assert((i + 2) * 0x8000_0000_0000_0000int <= 0x8000_0000_0000_0000_0000_0000_0000_0000) by (nonlinear_arith)
            requires
                i + 2 <= 0x1_0000_0000_0000_0000,
        ;
        if j < names.len() {
            assert(strings_view(names@)[j as int] == names@[j as int]@);
            assert(has_payee(pre, name@));
            assert(payees(post) == payees(pre));
            let ghost old_totals = totals@;
            let t = totals[j] + (amount as i128);
            totals.set(j, t);
            proof {
                assert forall|k: int| 0 <= k < totals@.len() implies #[trigger] totals@[k] == payee_total(
                    post,
                    names@[k]@,
                ) by {
                    if k != j {
                        assert(names@[k]@ != name@) by {
                            let sv = strings_view(names@);
                            assert(sv[k] == names@[k]@);
                            assert(sv[j as int] == name@);
                            lemma_payees_distinct(pre);
                        }
                    }
                }
                assert forall|k: int| 0 <= k < totals@.len() implies -(i + 2) * 0x8000_0000_0000_0000
                    <= #[trigger] totals@[k] <= (i + 2) * 0x7fff_ffff_ffff_ffff by {
                    assert(old_totals[k] == totals@[k] || k == j);
                }
            }
        } else {
            assert(!strings_view(names@).contains(name@)) by {
                if strings_view(names@).contains(name@) {
                    let k = choose|k: int| 0 <= k < strings_view(names@).len() && strings_view(names@)[k] == name@;
                    assert(names@[k]@ == name@);
                }
            }
            assert(!has_payee(pre, name@));
            assert(payees(post) == payees(pre).push(name@));
            let ghost old_totals = totals@;
            let ghost old_names = names@;
            names.push(name.clone());
            totals.push((amount as i128) + (amount as i128));
            proof {
                assert(strings_view(names@) =~= payees(post));
                assert forall|k: int| 0 <= k < totals@.len() implies #[trigger] totals@[k] == payee_total(
                    post,
                    names@[k]@,
                ) by {
                    if k < old_totals.len() {
                        assert(names@[k]@ != name@) by {
                            assert(names@[k] == old_names[k]);
                            assert(strings_view(old_names)[k] == old_names[k]@);
                            assert(payees(pre)[k] == names@[k]@);
                        }
                    }
                }
                assert forall|k: int| 0 <= k < totals@.len() implies -(i + 2) * 0x8000_0000_0000_0000
                    <= #[trigger] totals@[k] <= (i + 2) * 0x7fff_ffff_ffff_ffff by {
                    if k < old_totals.len() {
                        assert(old_totals[k] == totals@[k]);
                    }
                }
            }
        }
        i = i + 1;
    }
    assert(pv.take(paid.len() as int) =~= pv);
    let mut r: Vec<(String, i128)> = Vec::new();
    let mut k: usize = 0;
    while k < names.len()
        invariant
            k <= names.len(),
            names@.len() == totals@.len(),
            r@.len() == k,
            forall|q: int| 0 <= q < k ==> (#[trigger] r@[q]).0@ == names@[q]@ && r@[q].1 == totals@[q],
        decreases names.len() - k,
    {
        r.push((names[k].clone(), totals[k]));
        k = k + 1;
    }
    proof {
        assert forall|q: int| 0 <= q < r@.len() implies (#[trigger] r@[q]).0@ == payees(pv)[q] by {
            assert(strings_view(names@)[q] == names@[q]@);
        }
    }
    r
}

proof fn lemma_payees_distinct(paid: Seq<(i64, Seq<char>)>)
    ensures
        forall|a: int, b: int|
            0 <= a < b < payees(paid).len() ==> #[trigger] payees(paid)[a] != #[trigger] payees(paid)[b],
    decreases paid.len(),
{
    if paid.len() > 0 {
        let init = paid.drop_last();
        lemma_payees_distinct(init);
        lemma_payees_contains(init, paid.last().1);
        if !has_payee(init, paid.last().1) {
            let p = payees(paid);
            assert forall|a: int, b: int| 0 <= a < b < p.len() implies p[a] != p[b] by {
                if b == p.len() - 1 {
                    assert(p[a] == payees(init)[a]);
                }
            }
        }
    }
}

/// The receivers named by the transactions, in order.
pub open spec fn receiver_ids(ts: Seq<WalletTransaction>) -> Seq<Seq<char>>
    decreases ts.len(),
{
    if ts.len() == 0 {
        Seq::empty()
    } else {
        let r = receiver_ids(ts.drop_last());
        match ts.last().receiver_id {
            Some(x) => r.push(x@),
            None => r,
        }
    }
}

/// The receivers of the transactions that name one, in order.
pub fn transaction_receiver_ids(transactions: &Vec<WalletTransaction>) -> (r: Vec<String>)
    ensures
        strings_view(r@) == receiver_ids(transactions@),
{
    let mut r: Vec<String> = Vec::new();
    let mut i: usize = 0;
    while i < transactions.len()
        invariant
            i <= transactions.len(),
            strings_view(r@) == receiver_ids(transactions@.take(i as int)),
        decreases transactions.len() - i,
    {
        assert(transactions@.take(i + 1).drop_last() =~= transactions@.take(i as int));
        let ghost before = strings_view(r@);
        match &transactions[i].receiver_id {
            Some(x) => {
                r.push(x.clone());
                assert(strings_view(r@) =~= before.push(x@));
            },
            None => {},
        }
        i = i + 1;
    }
    assert(transactions@.take(transactions.len() as int) =~= transactions@);
    r
}

/// The media records that are available, in order.
pub open spec fn available_media(ms: Seq<Media>) -> Seq<Media>
    decreases ms.len(),
{
    if ms.len() == 0 {
        ms
    } else {
        let r = available_media(ms.drop_last());
        if media_available(ms.last()) {
            r.push(ms.last())
        } else {
            r
        }
    }
}

/// `m` is the gatherer's media for the record `fm`, saved under its file name.
pub open spec fn gathered_media(m: gatherers::Media, fm: Media, user_name: Seq<char>) -> bool {
    let d = fm.details.unwrap();
    &&& m.file_name@ == saved_file_name(d)
    &&& m.url@ == d.locations@[0].location@
    &&& m.mime_type@ == d.mimetype@
    &&& m.paid == fm.purchased
    &&& m.user_name@ == user_name
}

/// The gatherer's media for the available records, in order.
pub fn gatherer_media_from(medias: Vec<Media>, user_name: &str) -> (r: Vec<gatherers::Media>)
    ensures
        r@.len() == available_media(medias@).len(),
        forall|i: int|
            0 <= i < r@.len() ==> gathered_media(#[trigger] r@[i], available_media(medias@)[i], user_name@),
{
    let mut medias = medias;
    let ghost all = medias@;
    let n = medias.len();
    let mut r: Vec<gatherers::Media> = Vec::new();
    let mut i: usize = 0;
    while medias.len() > 0
        invariant
            medias@.len() + i == n,
            n == all.len(),
            medias@ == all.subrange(i as int, n as int),
            r@.len() == available_media(all.take(i as int)).len(),
            forall|k: int|
                0 <= k < r@.len() ==> gathered_media(#[trigger] r@[k], available_media(all.take(i as int))[k], user_name@),
        decreases medias@.len(),
    {
        let m = medias.remove(0);
        let ghost before = available_media(all.take(i as int));
        assert(all.take(i + 1).drop_last() =~= all.take(i as int));
        assert(all.take(i + 1).last() == m);
        assert(medias@ =~= all.subrange(i + 1, n as int));
        let ghost mg = m;
        match fansly_media_to_gatherers_media(m, user_name) {
            Some(g) => {
                r.push(g);
                proof {
                    let now = available_media(all.take(i + 1));
                    assert(now == before.push(mg));
                    assert forall|k: int| 0 <= k < r@.len() implies gathered_media(#[trigger] r@[k], now[k], user_name@) by {
                        if k < r@.len() - 1 {
                            assert(now[k] == before[k]);
                        }
                    }
                }
            },
            None => {},
        }
        i = i + 1;
    }
    assert(all.take(n as int) =~= all);
    r
}

/// `m` is the gatherer's media for the record `fm`, named after the record's id.
pub open spec fn story_media(m: gatherers::Media, fm: Media, user_name: Seq<char>) -> bool {
    let d = fm.details.unwrap();
    &&& m.file_name@ == fm.id@ + extension_suffix(text_or_empty(d.file_name))
    &&& m.url@ == d.locations@[0].location@
    &&& m.mime_type@ == d.mimetype@
    &&& m.paid == fm.purchased
    &&& m.user_name@ == user_name
    &&& plain_file_name(text_or_empty(d.file_name)) ==> m.file_name@ == fm.id@ + file_name_suffix(
        text_or_empty(d.file_name),
    )
}

/// The gatherer's media for the available records of stories, named after
/// their ids, in order.
pub fn gatherer_media_from_stories(medias: Vec<Media>, user_name: &str) -> (r: Vec<gatherers::Media>)
    ensures
        r@.len() == available_media(medias@).len(),
        forall|i: int|
            0 <= i < r@.len() ==> story_media(#[trigger] r@[i], available_media(medias@)[i], user_name@),
{
    let mut medias = medias;
    let ghost all = medias@;
    let n = medias.len();
    let mut r: Vec<gatherers::Media> = Vec::new();
    let mut i: usize = 0;
    while medias.len() > 0
        invariant
            medias@.len() + i == n,
            n == all.len(),
            medias@ == all.subrange(i as int, n as int),
            r@.len() == available_media(all.take(i as int)).len(),
            forall|k: int|
                0 <= k < r@.len() ==> story_media(#[trigger] r@[k], available_media(all.take(i as int))[k], user_name@),
        decreases medias@.len(),
    {
        let m = medias.remove(0);
        let ghost before = available_media(all.take(i as int));
        assert(all.take(i + 1).drop_last() =~= all.take(i as int));
        assert(all.take(i + 1).last() == m);
        assert(medias@ =~= all.subrange(i + 1, n as int));
        let ghost mg = m;
        match to_gatherer_media(m, user_name) {
            Ok(g) => {
                r.push(g);
                proof {
                    let now = available_media(all.take(i + 1));
                    assert(now == before.push(mg));
                    assert forall|k: int| 0 <= k < r@.len() implies story_media(#[trigger] r@[k], now[k], user_name@) by {
                        if k < r@.len() - 1 {
                            assert(now[k] == before[k]);
                        }
                    }
                }
            },
            Err(_) => {},
        }
        i = i + 1;
    }
    assert(all.take(n as int) =~= all);
    r
}

/// The avatar and then the banner of an account, as the gatherer's media,
/// where they are available.
pub fn profile_media(account: Account, user_name: &str) -> (r: Vec<gatherers::Media>)
    ensures
        ({
            let pics = seq![account.avatar, account.banner];
            let present = pics.filter(|p: Option<Media>| p matches Some(m) && media_available(m));
            &&& r@.len() == present.len()
            &&& forall|i: int| 0 <= i < r@.len() ==> gathered_media(#[trigger] r@[i], present[i]->Some_0, user_name@)
        }),
{
    let ghost pics = seq![account.avatar, account.banner];
    let mut r: Vec<gatherers::Media> = Vec::new();
    let ghost avatar0 = account.avatar;
    let ghost banner0 = account.banner;
    match account.avatar {
        Some(avatar) => match fansly_media_to_gatherers_media(avatar, user_name) {
            Some(m) => r.push(m),
            None => {},
        },
        None => {},
    }
    match account.banner {
        Some(banner) => match fansly_media_to_gatherers_media(banner, user_name) {
            Some(m) => r.push(m),
            None => {},
        },
        None => {},
    }
    proof {
        let f = |p: Option<Media>| p matches Some(m) && media_available(m);
        reveal_with_fuel(Seq::<_>::filter, 3);
        assert(pics.take(0) =~= Seq::<Option<Media>>::empty());
        assert(pics.drop_last() =~= seq![account.avatar]);
        assert(seq![account.avatar].drop_last() =~= Seq::<Option<Media>>::empty());
    }
    r
}

} // verus!
