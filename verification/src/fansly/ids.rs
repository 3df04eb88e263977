//! The media ids a gatherer asks the site about, and their order.

use vstd::prelude::*;

use super::gatherer::text_or_empty;
use super::responses::inner::Posts;
use super::structs::{Attachment, Media, MediaBundle, Message, Post, PurchasedMedia, Story};
use crate::text::{chars_of, strings_view};

verus! {

/// `a` comes before `b` in the order of `String`: character by character by
/// code point, a proper prefix first.
pub open spec fn text_less(a: Seq<char>, b: Seq<char>) -> bool
    decreases a.len(),
{
    if a.len() == 0 {
        b.len() > 0
    } else if b.len() == 0 {
        false
    } else if (a[0] as u32) < (b[0] as u32) {
        true
    } else if (a[0] as u32) > (b[0] as u32) {
        false
    } else {
        text_less(a.drop_first(), b.drop_first())
    }
}

pub proof fn lemma_text_less_irreflexive(a: Seq<char>)
    ensures
        !text_less(a, a),
    decreases a.len(),
{
    if a.len() > 0 {
        lemma_text_less_irreflexive(a.drop_first());
    }
}

pub proof fn lemma_text_less_transitive(a: Seq<char>, b: Seq<char>, c: Seq<char>)
    requires
        text_less(a, b),
        text_less(b, c),
    ensures
        text_less(a, c),
    decreases a.len(),
{
    if a.len() > 0 && b.len() > 0 && c.len() > 0 {
        if (a[0] as u32) == (b[0] as u32) && (b[0] as u32) == (c[0] as u32) {
            lemma_text_less_transitive(a.drop_first(), b.drop_first(), c.drop_first());
        }
    }
}

pub proof fn lemma_text_less_total(a: Seq<char>, b: Seq<char>)
    ensures
        a == b || text_less(a, b) || text_less(b, a),
    decreases a.len(),
{
    if a.len() > 0 && b.len() > 0 {
        if (a[0] as u32) == (b[0] as u32) {
            lemma_text_less_total(a.drop_first(), b.drop_first());
            if a.drop_first() == b.drop_first() {
                vstd::utf8::char_u32_cast(a[0], a[0] as u32);
                vstd::utf8::char_u32_cast(b[0], b[0] as u32);
                assert(a[0] == b[0]);
                assert(a =~= seq![a[0]] + a.drop_first());
                assert(b =~= seq![b[0]] + b.drop_first());
            }
        }
    } else if a.len() == 0 && b.len() == 0 {
        assert(a =~= b);
    }
}

pub proof fn lemma_text_less_asymmetric(a: Seq<char>, b: Seq<char>)
    requires
        text_less(a, b),
    ensures
        !text_less(b, a),
{
    if text_less(b, a) {
        lemma_text_less_transitive(a, b, a);
        lemma_text_less_irreflexive(a);
    }
}

/// Whether `a` comes before `b`.
fn chars_less(a: &Vec<char>, b: &Vec<char>) -> (r: bool)
    ensures
        r == text_less(a@, b@),
{
    let mut i: usize = 0;
    assert(a@.skip(0) =~= a@);
    assert(b@.skip(0) =~= b@);
    while i < a.len() && i < b.len()
        invariant
            i <= a.len(),
            i <= b.len(),
            text_less(a@, b@) == text_less(a@.skip(i as int), b@.skip(i as int)),
        decreases a.len() - i,
    {
        let x = a[i] as u32;
        let y = b[i] as u32;
        assert(a@.skip(i as int)[0] == a@[i as int]);
        assert(b@.skip(i as int)[0] == b@[i as int]);
        if x < y {
            return true;
        }
        if x > y {
            return false;
        }
        assert(a@.skip(i as int).drop_first() =~= a@.skip(i + 1));
        assert(b@.skip(i as int).drop_first() =~= b@.skip(i + 1));
        i = i + 1;
    }
    i == a.len() && i < b.len()
}

/// Each text comes before every later one: the texts are sorted and none is
/// repeated.
pub open spec fn strictly_sorted(s: Seq<Seq<char>>) -> bool {
    forall|i: int, j: int| 0 <= i < j < s.len() ==> text_less(s[i], s[j])
}

/// The ids sorted, each once: what sorting and removing repeats leaves.
pub fn sorted_unique(ids: &Vec<String>) -> (r: Vec<String>)
    ensures
        strictly_sorted(strings_view(r@)),
        forall|x: Seq<char>| strings_view(r@).contains(x) <==> strings_view(ids@).contains(x),
{
    let mut r: Vec<String> = Vec::new();
    let mut keys: Vec<Vec<char>> = Vec::new();
    let mut i: usize = 0;
    while i < ids.len()
        invariant
            i <= ids.len(),
            keys@.len() == r@.len(),
            forall|k: int| 0 <= k < r@.len() ==> (#[trigger] keys@[k])@ == r@[k]@,
            strictly_sorted(strings_view(r@)),
            forall|x: Seq<char>|
                strings_view(r@).contains(x) <==> strings_view(ids@.take(i as int)).contains(x),
        decreases ids.len() - i,
    {
        let x = chars_of(ids[i].as_str());
        let ghost rv = strings_view(r@);
        let mut p: usize = 0;
        while p < keys.len() && chars_less(&keys[p], &x)
            invariant
                p <= keys.len(),
                keys@.len() == r@.len(),
                rv == strings_view(r@),
                forall|k: int| 0 <= k < r@.len() ==> (#[trigger] keys@[k])@ == r@[k]@,
                forall|k: int| 0 <= k < p ==> text_less(#[trigger] rv[k], x@),
            decreases keys.len() - p,
        {
            p = p + 1;
        }
        let ghost seen = strings_view(ids@.take(i as int));
        assert(strings_view(ids@.take(i + 1)) =~= seen.push(x@));
        let dup = p < keys.len() && !chars_less(&x, &keys[p]);
        if dup {
            proof {
                assert(keys@[p as int]@ == rv[p as int]);
                lemma_text_less_total(rv[p as int], x@);
                assert(rv[p as int] == x@);
                assert forall|y: Seq<char>| rv.contains(y) <==> seen.push(x@).contains(y) by {
                    if y == x@ {
                        assert(seen.push(x@)[seen.len() as int] == x@);
                        assert(rv.contains(y));
                        assert(seen.push(x@).contains(y));
                    } else {
                        if seen.push(x@).contains(y) {
                            let k = choose|k: int| 0 <= k < seen.push(x@).len() && seen.push(x@)[k] == y;
                            assert(seen[k] == y);
                            assert(seen.contains(y));
                        }
                        if seen.contains(y) {
                            let k = choose|k: int| 0 <= k < seen.len() && seen[k] == y;
                            assert(seen.push(x@)[k] == y);
                        }
                    }
                }
            }
        } else {
            proof {
                if p < keys.len() {
                    assert(keys@[p as int]@ == rv[p as int]);
                    lemma_text_less_total(rv[p as int], x@);
                    assert(!text_less(rv[p as int], x@));
                    assert(rv[p as int] != x@);
                    assert(text_less(x@, rv[p as int]));
                }
            }
            let ghost x_view = x@;
            let ghost old_keys = keys@;
            let ghost old_r = r@;
            r.insert(p, ids[i].clone());
            keys.insert(p, x);
            proof {
                let nv = strings_view(r@);
                assert(nv =~= rv.insert(p as int, x_view));
                assert forall|a: int, b: int| 0 <= a < b < nv.len() implies text_less(nv[a], nv[b]) by {
                    if b < p {
                        assert(nv[a] == rv[a] && nv[b] == rv[b]);
                    } else if b == p {
                        assert(nv[a] == rv[a]);
                    } else if a == p {
                        assert(nv[b] == rv[b - 1]);
                        if b - 1 > p {
                            lemma_text_less_transitive(x_view, rv[p as int], rv[b - 1]);
                        }
                    } else if a < p {
                        assert(nv[a] == rv[a]);
                        assert(nv[b] == rv[b - 1]);
                        if b - 1 >= p {
                            lemma_text_less_transitive(rv[a], x_view, rv[p as int]);
                            if b - 1 > p {
                                lemma_text_less_transitive(rv[a], rv[p as int], rv[b - 1]);
                            }
                        }
                    } else {
                        assert(nv[a] == rv[a - 1]);
                        assert(nv[b] == rv[b - 1]);
                    }
                }
                assert forall|k: int| 0 <= k < r@.len() implies (#[trigger] keys@[k])@ == r@[k]@ by {
                    if k == p {
                        assert(keys@[k]@ == x_view);
                        assert(r@[k]@ == nv[k]);
                    } else if k < p {
                        assert(keys@[k] == old_keys[k]);
                        assert(r@[k] == old_r[k]);
                    } else {
                        assert(keys@[k] == old_keys[k - 1]);
                        assert(r@[k] == old_r[k - 1]);
                    }
                }
                assert forall|y: Seq<char>| nv.contains(y) <==> seen.push(x_view).contains(y) by {
                    if y == x_view {
                        assert(nv[p as int] == x_view);
                        assert(seen.push(x_view)[seen.len() as int] == x_view);
                    }
                    if nv.contains(y) && y != x_view {
                        let k = choose|k: int| 0 <= k < nv.len() && nv[k] == y;
                        if k < p {
                            assert(rv[k] == y);
                        } else {
                            assert(rv[k - 1] == y);
                        }
                        assert(rv.contains(y));
                        let m = choose|m: int| 0 <= m < seen.len() && seen[m] == y;
                        assert(seen.push(x_view)[m] == y);
                    }
                    if seen.push(x_view).contains(y) && y != x_view {
                        let k = choose|k: int| 0 <= k < seen.push(x_view).len() && seen.push(x_view)[k] == y;
                        assert(seen[k] == y);
                        assert(rv.contains(y));
                        let m = choose|m: int| 0 <= m < rv.len() && rv[m] == y;
                        if m < p {
                            assert(nv[m] == y);
                        } else {
                            assert(nv[m + 1] == y);
                        }
                    }
                }
            }
        }
        i = i + 1;
    }
    assert(ids@.take(ids.len() as int) =~= ids@);
    r
}

/// Two strictly sorted lists of the same ids are the same list: sorting and
/// removing repeats leaves one result for a set of ids, so doing it again
/// changes nothing.
pub proof fn law_sorted_ids_are_determined(a: Seq<Seq<char>>, b: Seq<Seq<char>>)
    requires
        strictly_sorted(a),
        strictly_sorted(b),
        forall|x: Seq<char>| a.contains(x) <==> b.contains(x),
    ensures
        a == b,
    decreases a.len(),
{
    if a.len() == 0 {
        if b.len() > 0 {
            assert(b.contains(b[0]));
        }
        assert(a =~= b);
    } else {
        assert(a.contains(a[0]));
        let j = choose|j: int| 0 <= j < b.len() && b[j] == a[0];
        if j > 0 {
            assert(text_less(b[0], b[j]));
            assert(b.contains(b[0]));
            let k = choose|k: int| 0 <= k < a.len() && a[k] == b[0];
            if k == 0 {
                lemma_text_less_irreflexive(a[0]);
            } else {
                assert(text_less(a[0], a[k]));
                lemma_text_less_asymmetric(a[0], b[0]);
            }
        }
        assert(b[0] == a[0]);
        let ta = a.drop_first();
        let tb = b.drop_first();
        assert forall|x: Seq<char>| ta.contains(x) <==> tb.contains(x) by {
            if ta.contains(x) {
                let i = choose|i: int| 0 <= i < ta.len() && ta[i] == x;
                assert(a[i + 1] == x);
                assert(text_less(a[0], x));
                assert(a.contains(x));
                let m = choose|m: int| 0 <= m < b.len() && b[m] == x;
                if m == 0 {
                    lemma_text_less_irreflexive(x);
                }
                assert(tb[m - 1] == x);
            }
            if tb.contains(x) {
                let i = choose|i: int| 0 <= i < tb.len() && tb[i] == x;
                assert(b[i + 1] == x);
                assert(text_less(b[0], x));
                assert(b.contains(x));
                let m = choose|m: int| 0 <= m < a.len() && a[m] == x;
                if m == 0 {
                    lemma_text_less_irreflexive(x);
                }
                assert(ta[m - 1] == x);
            }
        }
        assert forall|p: int, q: int| 0 <= p < q < ta.len() implies text_less(ta[p], ta[q]) by {
            assert(ta[p] == a[p + 1] && ta[q] == a[q + 1]);
        }
        assert forall|p: int, q: int| 0 <= p < q < tb.len() implies text_less(tb[p], tb[q]) by {
            assert(tb[p] == b[p + 1] && tb[q] == b[q + 1]);
        }
        law_sorted_ids_are_determined(ta, tb);
        assert(a =~= seq![a[0]] + ta);
        assert(b =~= seq![b[0]] + tb);
    }
}


/// The ids that `f` gives for each item, one item after the other.
pub open spec fn concat_ids<A>(s: Seq<A>, f: spec_fn(A) -> Seq<Seq<char>>) -> Seq<Seq<char>>
    decreases s.len(),
{
    if s.len() == 0 {
        Seq::empty()
    } else {
        concat_ids(s.drop_last(), f) + f(s.last())
    }
}

/// The media id an attachment refers to, empty when it names none.
pub open spec fn attachment_id(a: Attachment) -> Seq<char> {
    text_or_empty(a.content_id)
}

/// The media ids of a list of attachments.
pub open spec fn attachments_ids(atts: Seq<Attachment>) -> Seq<Seq<char>> {
    atts.map_values(|a: Attachment| attachment_id(a))
}

/// The media ids of the attachments of the posts of a timeline page.
pub open spec fn page_attachment_ids(page: Posts) -> Seq<Seq<char>> {
    match page.posts {
        Some(ps) => concat_ids(ps@, |p: Post| attachments_ids(p.attachments@)),
        None => Seq::empty(),
    }
}

/// The ids of an optional list of media records.
pub open spec fn media_record_ids(ms: Option<Vec<Media>>) -> Seq<Seq<char>> {
    match ms {
        Some(v) => v@.map_values(|m: Media| m.id@),
        None => Seq::empty(),
    }
}

/// The ids of the bundles a timeline page lists.
pub open spec fn page_bundle_ids(page: Posts) -> Seq<Seq<char>> {
    media_record_ids(page.account_media_bundles)
}

/// The ids of the media a timeline page lists.
pub open spec fn page_account_media_ids(page: Posts) -> Seq<Seq<char>> {
    media_record_ids(page.account_media)
}

/// The media ids a bundle holds.
pub open spec fn bundle_media_ids(b: MediaBundle) -> Seq<Seq<char>> {
    strings_view(b.account_media_ids@)
}

fn push_attachment_ids(out: &mut Vec<String>, atts: &Vec<Attachment>)
    ensures
        strings_view(final(out)@) == strings_view(old(out)@) + attachments_ids(atts@),
{
    let ghost start = strings_view(out@);
    let mut i: usize = 0;
    while i < atts.len()
        invariant
            i <= atts.len(),
            strings_view(out@) == start + attachments_ids(atts@.take(i as int)),
        decreases atts.len() - i,
    {
        let id = match &atts[i].content_id {
            Some(c) => c.clone(),
            None => String::new(),
        };
        let ghost before = strings_view(out@);
        out.push(id);
        assert(strings_view(out@) =~= before.push(id@));
        assert(attachments_ids(atts@.take(i + 1)) =~= attachments_ids(atts@.take(i as int)).push(
            attachment_id(atts@[i as int]),
        ));
        assert(strings_view(out@) =~= start + attachments_ids(atts@.take(i + 1)));
        i = i + 1;
    }
    assert(atts@.take(atts.len() as int) =~= atts@);
}

fn push_media_ids(out: &mut Vec<String>, ms: &Option<Vec<Media>>)
    ensures
        strings_view(final(out)@) == strings_view(old(out)@) + media_record_ids(*ms),
{
    let ghost start = strings_view(out@);
    match ms {
        Some(v) => {
            let mut i: usize = 0;
            while i < v.len()
                invariant
                    i <= v.len(),
                    strings_view(out@) == start + v@.take(i as int).map_values(|m: Media| m.id@),
                decreases v.len() - i,
            {
                let ghost before = strings_view(out@);
                out.push(v[i].id.clone());
                assert(strings_view(out@) =~= before.push(v@[i as int].id@));
                assert(v@.take(i + 1).map_values(|m: Media| m.id@) =~= v@.take(i as int).map_values(
                    |m: Media| m.id@,
                ).push(v@[i as int].id@));
                assert(strings_view(out@) =~= start + v@.take(i + 1).map_values(|m: Media| m.id@));
                i = i + 1;
            }
            assert(v@.take(v.len() as int) =~= v@);
        },
        None => {
            assert(strings_view(out@) =~= start + media_record_ids(*ms));
        },
    }
}

fn push_strings(out: &mut Vec<String>, items: &Vec<String>)
    ensures
        strings_view(final(out)@) == strings_view(old(out)@) + strings_view(items@),
{
    let ghost start = strings_view(out@);
    let mut i: usize = 0;
    while i < items.len()
        invariant
            i <= items.len(),
            strings_view(out@) == start + strings_view(items@.take(i as int)),
        decreases items.len() - i,
    {
        let ghost before = strings_view(out@);
        out.push(items[i].clone());
        assert(strings_view(out@) =~= before.push(items@[i as int]@));
        assert(strings_view(items@.take(i + 1)) =~= strings_view(items@.take(i as int)).push(
            items@[i as int]@,
        ));
        assert(strings_view(out@) =~= start + strings_view(items@.take(i + 1)));
        i = i + 1;
    }
    assert(items@.take(items.len() as int) =~= items@);
}

/// The media ids of the attachments of all posts of the timeline pages, in order.
pub fn attachment_ids_of_pages(pages: &Vec<Posts>) -> (r: Vec<String>)
    ensures
        strings_view(r@) == concat_ids(pages@, |p: Posts| page_attachment_ids(p)),
{
    let mut r: Vec<String> = Vec::new();
    let mut i: usize = 0;
    while i < pages.len()
        invariant
            i <= pages.len(),
            strings_view(r@) == concat_ids(pages@.take(i as int), |p: Posts| page_attachment_ids(p)),
        decreases pages.len() - i,
    {
        let ghost before = strings_view(r@);
        assert(pages@.take(i + 1).drop_last() =~= pages@.take(i as int));
        match &pages[i].posts {
            Some(ps) => {
                let mut j: usize = 0;
                while j < ps.len()
                    invariant
                        j <= ps.len(),
                        strings_view(r@) == before + concat_ids(
                            ps@.take(j as int),
                            |p: Post| attachments_ids(p.attachments@),
                        ),
                    decreases ps.len() - j,
                {
                    assert(ps@.take(j + 1).drop_last() =~= ps@.take(j as int));
                    let ghost mid = strings_view(r@);
                    push_attachment_ids(&mut r, &ps[j].attachments);
                    assert(strings_view(r@) =~= before + concat_ids(
                        ps@.take(j + 1),
                        |p: Post| attachments_ids(p.attachments@),
                    ));
                    j = j + 1;
                }
                assert(ps@.take(ps.len() as int) =~= ps@);
            },
            None => {},
        }
        assert(strings_view(r@) =~= concat_ids(pages@.take(i + 1), |p: Posts| page_attachment_ids(p)));
        i = i + 1;
    }
    assert(pages@.take(pages.len() as int) =~= pages@);
    r
}

/// The ids of the bundles the timeline pages list, in order.
pub fn bundle_ids_of_pages(pages: &Vec<Posts>) -> (r: Vec<String>)
    ensures
        strings_view(r@) == concat_ids(pages@, |p: Posts| page_bundle_ids(p)),
{
    let mut r: Vec<String> = Vec::new();
    let mut i: usize = 0;
    while i < pages.len()
        invariant
            i <= pages.len(),
            strings_view(r@) == concat_ids(pages@.take(i as int), |p: Posts| page_bundle_ids(p)),
        decreases pages.len() - i,
    {
        assert(pages@.take(i + 1).drop_last() =~= pages@.take(i as int));
        push_media_ids(&mut r, &pages[i].account_media_bundles);
        i = i + 1;
    }
    assert(pages@.take(pages.len() as int) =~= pages@);
    r
}

/// The ids of the media the timeline pages list, in order.
pub fn account_media_ids_of_pages(pages: &Vec<Posts>) -> (r: Vec<String>)
    ensures
        strings_view(r@) == concat_ids(pages@, |p: Posts| page_account_media_ids(p)),
{
    let mut r: Vec<String> = Vec::new();
    let mut i: usize = 0;
    while i < pages.len()
        invariant
            i <= pages.len(),
            strings_view(r@) == concat_ids(pages@.take(i as int), |p: Posts| page_account_media_ids(p)),
        decreases pages.len() - i,
    {
        assert(pages@.take(i + 1).drop_last() =~= pages@.take(i as int));
        push_media_ids(&mut r, &pages[i].account_media);
        i = i + 1;
    }
    assert(pages@.take(pages.len() as int) =~= pages@);
    r
}

/// The media ids the bundles hold, in order.
pub fn media_ids_of_bundles(bundles: &Vec<MediaBundle>) -> (r: Vec<String>)
    ensures
        strings_view(r@) == concat_ids(bundles@, |b: MediaBundle| bundle_media_ids(b)),
{
    let mut r: Vec<String> = Vec::new();
    let mut i: usize = 0;
    while i < bundles.len()
        invariant
            i <= bundles.len(),
            strings_view(r@) == concat_ids(bundles@.take(i as int), |b: MediaBundle| bundle_media_ids(b)),
        decreases bundles.len() - i,
    {
        assert(bundles@.take(i + 1).drop_last() =~= bundles@.take(i as int));
        push_strings(&mut r, &bundles[i].account_media_ids);
        i = i + 1;
    }
    assert(bundles@.take(bundles.len() as int) =~= bundles@);
    r
}

/// All media ids of a timeline: the posts' attachments, the media of the
/// bundles, and the media the pages list.
pub open spec fn timeline_media_ids(pages: Seq<Posts>, bundles: Seq<MediaBundle>) -> Seq<Seq<char>> {
    concat_ids(pages, |p: Posts| page_attachment_ids(p)) + concat_ids(
        bundles,
        |b: MediaBundle| bundle_media_ids(b),
    ) + concat_ids(pages, |p: Posts| page_account_media_ids(p))
}

/// An id is among the ids that `f` gives for the items, one item after the
/// other, exactly when `f` gives it for one of the items.
pub proof fn lemma_concat_ids_contains<A>(s: Seq<A>, f: spec_fn(A) -> Seq<Seq<char>>, x: Seq<char>)
    ensures
        concat_ids(s, f).contains(x) <==> exists|i: int, k: int|
            0 <= i < s.len() && 0 <= k < f(s[i]).len() && #[trigger] f(s[i])[k] == x,
    decreases s.len(),
{
    if s.len() > 0 {
        let init = s.drop_last();
        lemma_concat_ids_contains(init, f, x);
        let c = concat_ids(init, f);
        let l = f(s.last());
        assert(concat_ids(s, f) == c + l);
        if (c + l).contains(x) {
            let j = choose|j: int| 0 <= j < (c + l).len() && (c + l)[j] == x;
            if j < c.len() {
                assert(c[j] == x);
                assert(c.contains(x));
                let (i, k) = choose|i: int, k: int|
                    0 <= i < init.len() && 0 <= k < f(init[i]).len() && #[trigger] f(init[i])[k] == x;
                assert(init[i] == s[i]);
                assert(f(s[i])[k] == x);
            } else {
                assert(l[j - c.len()] == x);
                assert(s.last() == s[s.len() - 1]);
                assert(f(s[s.len() - 1])[j - c.len()] == x);
            }
        }
        if exists|i: int, k: int| 0 <= i < s.len() && 0 <= k < f(s[i]).len() && #[trigger] f(s[i])[k] == x {
            let (i, k) = choose|i: int, k: int|
                0 <= i < s.len() && 0 <= k < f(s[i]).len() && #[trigger] f(s[i])[k] == x;
            if i < init.len() {
                assert(init[i] == s[i]);
                assert(f(init[i])[k] == x);
                let j = choose|j: int| 0 <= j < c.len() && c[j] == x;
                assert((c + l)[j] == x);
            } else {
                assert(s[i] == s.last());
                assert((c + l)[c.len() + k] == x);
            }
        }
    }
}

/// The ids of a list of media records are the records' own ids, one per
/// record, in order, whatever their previews.
pub proof fn law_media_record_ids_are_record_ids(v: Vec<Media>)
    ensures
        media_record_ids(Some(v)).len() == v@.len(),
        forall|i: int| 0 <= i < v@.len() ==> #[trigger] media_record_ids(Some(v))[i] == v@[i].id@,
{
}

/// The bundles a timeline's pages list are asked for by the bundle records'
/// own ids: an id is gathered exactly when some page lists a bundle with it.
pub proof fn law_page_bundle_ids_are_record_ids(pages: Seq<Posts>, x: Seq<char>)
    ensures
        concat_ids(pages, |p: Posts| page_bundle_ids(p)).contains(x) <==> exists|i: int, k: int|
            0 <= i < pages.len() && pages[i].account_media_bundles is Some && 0 <= k
                < pages[i].account_media_bundles->Some_0@.len()
                && (#[trigger] pages[i].account_media_bundles->Some_0@[k]).id@ == x,
{
    let f = |p: Posts| page_bundle_ids(p);
    lemma_concat_ids_contains(pages, f, x);
    if concat_ids(pages, f).contains(x) {
        let (i, k) = choose|i: int, k: int| 0 <= i < pages.len() && 0 <= k < f(pages[i]).len() && #[trigger] f(pages[i])[k] == x;
        assert(pages[i].account_media_bundles->Some_0@[k].id@ == x);
    }
    if exists|i: int, k: int|
        0 <= i < pages.len() && pages[i].account_media_bundles is Some && 0 <= k
            < pages[i].account_media_bundles->Some_0@.len()
            && (#[trigger] pages[i].account_media_bundles->Some_0@[k]).id@ == x {
        let (i, k) = choose|i: int, k: int|
            0 <= i < pages.len() && pages[i].account_media_bundles is Some && 0 <= k
                < pages[i].account_media_bundles->Some_0@.len()
                && (#[trigger] pages[i].account_media_bundles->Some_0@[k]).id@ == x;
        assert(f(pages[i])[k] == x);
    }
}

/// The media a timeline's pages list are asked for by the records' own ids:
/// an id is gathered exactly when some page lists a media record with it.
pub proof fn law_page_media_ids_are_record_ids(pages: Seq<Posts>, x: Seq<char>)
    ensures
        concat_ids(pages, |p: Posts| page_account_media_ids(p)).contains(x) <==> exists|i: int, k: int|
            0 <= i < pages.len() && pages[i].account_media is Some && 0 <= k
                < pages[i].account_media->Some_0@.len()
                && (#[trigger] pages[i].account_media->Some_0@[k]).id@ == x,
{
    let f = |p: Posts| page_account_media_ids(p);
    lemma_concat_ids_contains(pages, f, x);
    if concat_ids(pages, f).contains(x) {
        let (i, k) = choose|i: int, k: int| 0 <= i < pages.len() && 0 <= k < f(pages[i]).len() && #[trigger] f(pages[i])[k] == x;
        assert(pages[i].account_media->Some_0@[k].id@ == x);
    }
    if exists|i: int, k: int|
        0 <= i < pages.len() && pages[i].account_media is Some && 0 <= k
            < pages[i].account_media->Some_0@.len()
            && (#[trigger] pages[i].account_media->Some_0@[k]).id@ == x {
        let (i, k) = choose|i: int, k: int|
            0 <= i < pages.len() && pages[i].account_media is Some && 0 <= k
                < pages[i].account_media->Some_0@.len()
                && (#[trigger] pages[i].account_media->Some_0@[k]).id@ == x;
        assert(f(pages[i])[k] == x);
    }
}

/// The media of the bundles are asked for by the ids the bundles list: an id
/// is gathered exactly when some bundle lists it.
pub proof fn law_bundle_media_ids_are_listed_ids(bundles: Seq<MediaBundle>, x: Seq<char>)
    ensures
        concat_ids(bundles, |b: MediaBundle| bundle_media_ids(b)).contains(x) <==> exists|i: int, k: int|
            0 <= i < bundles.len() && 0 <= k < bundles[i].account_media_ids@.len()
                && (#[trigger] bundles[i].account_media_ids@[k])@ == x,
{
    let f = |b: MediaBundle| bundle_media_ids(b);
    lemma_concat_ids_contains(bundles, f, x);
    if concat_ids(bundles, f).contains(x) {
        let (i, k) = choose|i: int, k: int| 0 <= i < bundles.len() && 0 <= k < f(bundles[i]).len() && #[trigger] f(bundles[i])[k] == x;
        assert(bundles[i].account_media_ids@[k]@ == x);
    }
    if exists|i: int, k: int|
        0 <= i < bundles.len() && 0 <= k < bundles[i].account_media_ids@.len()
            && (#[trigger] bundles[i].account_media_ids@[k])@ == x {
        let (i, k) = choose|i: int, k: int|
            0 <= i < bundles.len() && 0 <= k < bundles[i].account_media_ids@.len()
                && (#[trigger] bundles[i].account_media_ids@[k])@ == x;
        assert(f(bundles[i])[k] == x);
    }
}

/// The posts' attachments are asked for by the media ids they name (empty
/// when they name none): an id is gathered exactly when some attachment of
/// some post of some page names it.
pub proof fn law_page_attachment_ids_are_content_ids(pages: Seq<Posts>, x: Seq<char>)
    ensures
        concat_ids(pages, |p: Posts| page_attachment_ids(p)).contains(x) <==> exists|i: int, j: int, k: int|
            0 <= i < pages.len() && pages[i].posts is Some && 0 <= j < pages[i].posts->Some_0@.len() && 0 <= k
                < pages[i].posts->Some_0@[j].attachments@.len() && text_or_empty(
                (#[trigger] pages[i].posts->Some_0@[j].attachments@[k]).content_id,
            ) == x,
{
    let f = |p: Posts| page_attachment_ids(p);
    let g = |p: Post| attachments_ids(p.attachments@);
    lemma_concat_ids_contains(pages, f, x);
    if concat_ids(pages, f).contains(x) {
        let (i, k) = choose|i: int, k: int| 0 <= i < pages.len() && 0 <= k < f(pages[i]).len() && #[trigger] f(pages[i])[k] == x;
        let ps = pages[i].posts->Some_0@;
        assert(f(pages[i]) == concat_ids(ps, g));
        assert(concat_ids(ps, g).contains(x)) by {
            assert(concat_ids(ps, g)[k] == x);
        }
        lemma_concat_ids_contains(ps, g, x);
        let (j, m) = choose|j: int, m: int| 0 <= j < ps.len() && 0 <= m < g(ps[j]).len() && #[trigger] g(ps[j])[m] == x;
        assert(text_or_empty(ps[j].attachments@[m].content_id) == x);
        assert(pages[i].posts->Some_0@[j].attachments@[m] == ps[j].attachments@[m]);
    }
    if exists|i: int, j: int, k: int|
        0 <= i < pages.len() && pages[i].posts is Some && 0 <= j < pages[i].posts->Some_0@.len() && 0 <= k
            < pages[i].posts->Some_0@[j].attachments@.len() && text_or_empty(
            (#[trigger] pages[i].posts->Some_0@[j].attachments@[k]).content_id,
        ) == x {
        let (i, j, k) = choose|i: int, j: int, k: int|
            0 <= i < pages.len() && pages[i].posts is Some && 0 <= j < pages[i].posts->Some_0@.len() && 0 <= k
                < pages[i].posts->Some_0@[j].attachments@.len() && text_or_empty(
                (#[trigger] pages[i].posts->Some_0@[j].attachments@[k]).content_id,
            ) == x;
        let ps = pages[i].posts->Some_0@;
        assert(g(ps[j])[k] == x);
        lemma_concat_ids_contains(ps, g, x);
        assert(concat_ids(ps, g).contains(x));
        let m = choose|m: int| 0 <= m < concat_ids(ps, g).len() && concat_ids(ps, g)[m] == x;
        assert(f(pages[i]) == concat_ids(ps, g));
        assert(f(pages[i])[m] == x);
    }
}

/// The media ids of a timeline are those of the posts' attachments, of the
/// bundles and of the media records the pages list, by the records' own ids:
/// an id is asked for exactly when it comes from one of them.
pub proof fn law_timeline_media_ids_sources(pages: Seq<Posts>, bundles: Seq<MediaBundle>, x: Seq<char>)
    ensures
        timeline_media_ids(pages, bundles).contains(x) <==> {
            ||| exists|i: int, j: int, k: int|
                0 <= i < pages.len() && pages[i].posts is Some && 0 <= j < pages[i].posts->Some_0@.len() && 0
                    <= k < pages[i].posts->Some_0@[j].attachments@.len() && text_or_empty(
                    (#[trigger] pages[i].posts->Some_0@[j].attachments@[k]).content_id,
                ) == x
            ||| exists|i: int, k: int|
                0 <= i < bundles.len() && 0 <= k < bundles[i].account_media_ids@.len()
                    && (#[trigger] bundles[i].account_media_ids@[k])@ == x
            ||| exists|i: int, k: int|
                0 <= i < pages.len() && pages[i].account_media is Some && 0 <= k
                    < pages[i].account_media->Some_0@.len()
                    && (#[trigger] pages[i].account_media->Some_0@[k]).id@ == x
        },
{
    law_page_attachment_ids_are_content_ids(pages, x);
    law_bundle_media_ids_are_listed_ids(bundles, x);
    law_page_media_ids_are_record_ids(pages, x);
    let a = concat_ids(pages, |p: Posts| page_attachment_ids(p));
    let b = concat_ids(bundles, |b: MediaBundle| bundle_media_ids(b));
    let c = concat_ids(pages, |p: Posts| page_account_media_ids(p));
    let t = timeline_media_ids(pages, bundles);
    assert(t == a + b + c);
    if t.contains(x) {
        let j = choose|j: int| 0 <= j < t.len() && t[j] == x;
        if j < a.len() {
            assert(a[j] == x);
        } else if j < a.len() + b.len() {
            assert(b[j - a.len()] == x);
        } else {
            assert(c[j - a.len() - b.len()] == x);
        }
    }
    if a.contains(x) {
        let j = choose|j: int| 0 <= j < a.len() && a[j] == x;
        assert(t[j] == x);
    }
    if b.contains(x) {
        let j = choose|j: int| 0 <= j < b.len() && b[j] == x;
        assert(t[a.len() + j] == x);
    }
    if c.contains(x) {
        let j = choose|j: int| 0 <= j < c.len() && c[j] == x;
        assert(t[a.len() + b.len() + j] == x);
    }
}

/// The media ids to ask about for a timeline, sorted and each once: those of
/// the posts' attachments, of the bundles, and of the media the pages list.
pub fn media_ids_for_posts(pages: &Vec<Posts>, bundles: &Vec<MediaBundle>) -> (r: Vec<String>)
    ensures
        strictly_sorted(strings_view(r@)),
        forall|x: Seq<char>|
            strings_view(r@).contains(x) <==> timeline_media_ids(pages@, bundles@).contains(x),
        forall|i: int, k: int|
            0 <= i < pages@.len() && pages@[i].account_media is Some && 0 <= k
                < pages@[i].account_media->Some_0@.len() ==> strings_view(r@).contains(
                (#[trigger] pages@[i].account_media->Some_0@[k]).id@,
            ),
        forall|i: int, k: int|
            0 <= i < bundles@.len() && 0 <= k < bundles@[i].account_media_ids@.len()
                ==> strings_view(r@).contains((#[trigger] bundles@[i].account_media_ids@[k])@),
{
    let mut ids = attachment_ids_of_pages(pages);
    let b = media_ids_of_bundles(bundles);
    push_strings(&mut ids, &b);
    let a = account_media_ids_of_pages(pages);
    push_strings(&mut ids, &a);
    let r = sorted_unique(&ids);
    proof {
        assert forall|i: int, k: int|
            0 <= i < pages@.len() && pages@[i].account_media is Some && 0 <= k
                < pages@[i].account_media->Some_0@.len() implies strings_view(r@).contains(
            (#[trigger] pages@[i].account_media->Some_0@[k]).id@,
        ) by {
            law_timeline_media_ids_sources(pages@, bundles@, pages@[i].account_media->Some_0@[k].id@);
        }
        assert forall|i: int, k: int|
            0 <= i < bundles@.len() && 0 <= k < bundles@[i].account_media_ids@.len() implies strings_view(
            r@,
        ).contains((#[trigger] bundles@[i].account_media_ids@[k])@) by {
            law_timeline_media_ids_sources(pages@, bundles@, bundles@[i].account_media_ids@[k]@);
        }
    }
    r
}

/// The media ids of the attachments of the messages, in order.
pub fn message_attachment_ids(messages: &Vec<Message>) -> (r: Vec<String>)
    ensures
        strings_view(r@) == concat_ids(messages@, |m: Message| attachments_ids(m.attachments@)),
{
    let mut r: Vec<String> = Vec::new();
    let mut i: usize = 0;
    while i < messages.len()
        invariant
            i <= messages.len(),
            strings_view(r@) == concat_ids(
                messages@.take(i as int),
                |m: Message| attachments_ids(m.attachments@),
            ),
        decreases messages.len() - i,
    {
        assert(messages@.take(i + 1).drop_last() =~= messages@.take(i as int));
        push_attachment_ids(&mut r, &messages[i].attachments);
        i = i + 1;
    }
    assert(messages@.take(messages.len() as int) =~= messages@);
    r
}

/// The content id of each story, empty when a story names none.
pub fn story_content_ids(stories: &Vec<Story>) -> (r: Vec<String>)
    ensures
        strings_view(r@) == stories@.map_values(|s: Story| text_or_empty(s.content_id)),
{
    let mut r: Vec<String> = Vec::new();
    let mut i: usize = 0;
    while i < stories.len()
        invariant
            i <= stories.len(),
            strings_view(r@) == stories@.take(i as int).map_values(|s: Story| text_or_empty(s.content_id)),
        decreases stories.len() - i,
    {
        let id = match &stories[i].content_id {
            Some(c) => c.clone(),
            None => String::new(),
        };
        let ghost before = strings_view(r@);
        let ghost idv = id@;
        r.push(id);
        assert(strings_view(r@) =~= before.push(idv));
        assert(stories@.take(i + 1).map_values(|s: Story| text_or_empty(s.content_id)) =~= stories@.take(
            i as int,
        ).map_values(|s: Story| text_or_empty(s.content_id)).push(
            text_or_empty(stories@[i as int].content_id),
        ));
        assert(strings_view(r@) =~= stories@.take(i + 1).map_values(
            |s: Story| text_or_empty(s.content_id),
        ));
        i = i + 1;
    }
    assert(stories@.take(stories.len() as int) =~= stories@);
    r
}

/// The media id of each purchase.
pub fn purchased_media_ids(purchased: &Vec<PurchasedMedia>) -> (r: Vec<String>)
    ensures
        strings_view(r@) == purchased@.map_values(|p: PurchasedMedia| p.account_media_id@),
{
    let mut r: Vec<String> = Vec::new();
    let mut i: usize = 0;
    while i < purchased.len()
        invariant
            i <= purchased.len(),
            strings_view(r@) == purchased@.take(i as int).map_values(
                |p: PurchasedMedia| p.account_media_id@,
            ),
        decreases purchased.len() - i,
    {
        let ghost before = strings_view(r@);
        r.push(purchased[i].account_media_id.clone());
        assert(strings_view(r@) =~= before.push(purchased@[i as int].account_media_id@));
        assert(purchased@.take(i + 1).map_values(|p: PurchasedMedia| p.account_media_id@)
            =~= purchased@.take(i as int).map_values(|p: PurchasedMedia| p.account_media_id@).push(
            purchased@[i as int].account_media_id@,
        ));
        assert(strings_view(r@) =~= purchased@.take(i + 1).map_values(
            |p: PurchasedMedia| p.account_media_id@,
        ));
        i = i + 1;
    }
    assert(purchased@.take(purchased.len() as int) =~= purchased@);
    r
}

} // verus!
