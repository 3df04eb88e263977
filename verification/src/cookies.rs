//! Cookies as the sites hand them out: `key=value` crumbs separated by `;`.

use vstd::prelude::*;

use crate::errors::Report;
use crate::text::{
    lemma_split_concat, lemma_split_no_sep, lemma_trim_after_white_space, lemma_trim_of_trimmed,
    char_vecs_view, chars_of, is_trimmed, join_seq, join_strings, lemma_split_nonempty,
    lemma_trim_is_trimmed, split_chars, split_seq, string_of, strings_view, trim_chars, trim_seq,
    is_white_space, trim_start_seq, trim_end_seq,
};

verus! {

/// A key and its value, by their characters.
pub type CrumbView = (Seq<char>, Seq<char>);

/// The value a crumb without `=` gets.
pub open spec fn flag_value() -> Seq<char> {
    seq!['t', 'r', 'u', 'e']
}

/// The key and value of one crumb: the trimmed text before the first `=`, and
/// the trimmed text between the first and the second `=`, or `true` when the
/// crumb has no `=`.
pub open spec fn crumb_entry(crumb: Seq<char>) -> CrumbView {
    let pieces = split_seq(crumb, '=');
    (trim_seq(pieces[0]), if pieces.len() > 1 {
        trim_seq(pieces[1])
    } else {
        flag_value()
    })
}

/// The crumbs of a cookie string, in order, each as its key and value.
pub open spec fn parsed_entries(input: Seq<char>) -> Seq<CrumbView> {
    split_seq(input, ';').map_values(|c: Seq<char>| crumb_entry(c))
}

/// The map that inserting the entries in order builds: a later crumb of a key
/// replaces the value of an earlier one.
pub open spec fn entries_map(es: Seq<CrumbView>) -> Map<Seq<char>, Seq<char>>
    decreases es.len(),
{
    if es.len() == 0 {
        Map::empty()
    } else {
        entries_map(es.drop_last()).insert(es.last().0, es.last().1)
    }
}

/// The entries with `e` set: its key's entry replaced in place when the key
/// is there, `e` added at the end otherwise.
pub open spec fn upsert(es: Seq<CrumbView>, e: CrumbView) -> Seq<CrumbView> {
    if exists|j: int| 0 <= j < es.len() && es[j].0 == e.0 {
        let j = choose|j: int| 0 <= j < es.len() && es[j].0 == e.0;
        es.update(j, e)
    } else {
        es.push(e)
    }
}

/// The entries that setting each of `es` in order builds: each key once, in
/// the order of its first crumb, with the value of its last one.
pub open spec fn merged_entries(es: Seq<CrumbView>) -> Seq<CrumbView>
    decreases es.len(),
{
    if es.len() == 0 {
        Seq::empty()
    } else {
        upsert(merged_entries(es.drop_last()), es.last())
    }
}

/// No key occurs twice among the entries.
pub open spec fn keys_distinct(es: Seq<CrumbView>) -> bool {
    forall|i: int, j: int| 0 <= i < j < es.len() ==> es[i].0 != es[j].0
}

/// `key=value`, the text of one crumb in a header.
pub open spec fn crumb_text(e: CrumbView) -> Seq<char> {
    e.0 + seq!['='] + e.1
}

/// The header text of the entries: their crumbs joined with `; `.
pub open spec fn header_text(es: Seq<CrumbView>) -> Seq<char> {
    join_seq(es.map_values(|e: CrumbView| crumb_text(e)), seq![';', ' '])
}

/// Text that parses back as itself inside a crumb: trimmed, without `;` or `=`.
pub open spec fn crumb_part_ok(s: Seq<char>) -> bool {
    &&& is_trimmed(s)
    &&& !s.contains(';')
    &&& !s.contains('=')
}

pub open spec fn entries_ok(es: Seq<CrumbView>) -> bool {
    forall|i: int| 0 <= i < es.len() ==> crumb_part_ok(#[trigger] es[i].0) && crumb_part_ok(es[i].1)
}

/// The keys and values of pairs of strings.
pub open spec fn pairs_view(v: Seq<(String, String)>) -> Seq<CrumbView> {
    v.map_values(|p: (String, String)| (p.0@, p.1@))
}

/// A parsed cookie: its crumbs by key.
#[derive(Debug)]
pub struct Cookie {
    crumbs: Vec<(String, String)>,
}

impl Cookie {
    /// The crumbs in the order in which their keys first came.
    pub closed spec fn entries(&self) -> Seq<CrumbView> {
        pairs_view(self.crumbs@)
    }

    #[verifier::type_invariant]
    closed spec fn inv(&self) -> bool {
        keys_distinct(self.entries())
    }

    /// The cookie's value for each of its keys.
    pub closed spec fn crumbs_map(&self) -> Map<Seq<char>, Seq<char>> {
        entries_map(self.entries())
    }

    /// The cookie without crumbs.
    pub fn new() -> (c: Cookie)
        ensures
            c.entries() == Seq::<CrumbView>::empty(),
            c.crumbs_map() == Map::<Seq<char>, Seq<char>>::empty(),
    {
        let c = Cookie { crumbs: Vec::new() };
        assert(c.entries() =~= Seq::<CrumbView>::empty());
        c
    }

    /// Sets `key` to `value`, in place when the key is there already.
    fn insert(&mut self, key: String, value: String)
        ensures
            final(self).crumbs_map() == old(self).crumbs_map().insert(key@, value@),
            final(self).entries() == upsert(old(self).entries(), (key@, value@)),
            entries_ok(old(self).entries()) && crumb_part_ok(key@) && crumb_part_ok(value@)
                ==> entries_ok(final(self).entries()),
            final(self).entries().len() >= 1,
    {
        proof {
            use_type_invariant(&*self);
        }
        let ghost es = self.entries();
        let mut crumbs: Vec<(String, String)> = Vec::new();
        std::mem::swap(&mut crumbs, &mut self.crumbs);
        let n = crumbs.len();
        let mut i: usize = 0;
        while i < n
            invariant
                n == crumbs.len(),
                i <= n,
                es == pairs_view(crumbs@),
                es == old(self).entries(),
                keys_distinct(es),
                forall|j: int| 0 <= j < i ==> es[j].0 != key@,
            decreases n - i,
        {
            assert(es[i as int] == (crumbs@[i as int].0@, crumbs@[i as int].1@));
            if crumbs[i].0 == key {
                let ghost new_es = es.update(i as int, (key@, value@));
                crumbs.set(i, (key, value));
                assert(pairs_view(crumbs@) =~= new_es);
                proof {
                    assert(es[i as int].0 == key@);
                    lemma_entries_map_update(es, i as int, value@);
                    if entries_ok(es) && crumb_part_ok(key@) && crumb_part_ok(value@) {
                        assert forall|j: int| 0 <= j < new_es.len() implies crumb_part_ok(
                            #[trigger] new_es[j].0,
                        ) && crumb_part_ok(new_es[j].1) by {
                            if j != i {
                                assert(new_es[j] == es[j]);
                            }
                        }
                    }
                }
                self.crumbs = crumbs;
                assert(self.entries() == new_es);
                assert(self.crumbs_map() == entries_map(es).insert(key@, value@));
                proof {
                    let j = choose|j: int| 0 <= j < es.len() && es[j].0 == key@;
                    assert(j == i);
                    assert(upsert(es, (key@, value@)) == new_es);
                }
                return;
            }
            i = i + 1;
        }
        let ghost new_es = es.push((key@, value@));
        crumbs.push((key, value));
        assert(pairs_view(crumbs@) =~= new_es);
        assert(new_es.drop_last() =~= es);
        assert(keys_distinct(new_es)) by {
            assert forall|a: int, b: int| 0 <= a < b < new_es.len() implies new_es[a].0
                != new_es[b].0 by {
                if b == es.len() {
                    assert(new_es[a] == es[a]);
                }
            }
        }
        self.crumbs = crumbs;
        assert(upsert(es, (key@, value@)) == new_es);
    }

    /// Parses `key=value` crumbs separated by `;`. Keys and values are
    /// trimmed; a crumb without `=` gets the value `true`; when a key comes
    /// again, its later value wins.
    pub fn parse(input: &str) -> (r: Result<Cookie, Report>)
        ensures
            r is Ok,
            r matches Ok(c) ==> c.crumbs_map() == entries_map(parsed_entries(input@)),
            r matches Ok(c) ==> c.entries() == merged_entries(parsed_entries(input@)),
            r matches Ok(c) ==> keys_distinct(c.entries()),
            r matches Ok(c) ==> entries_ok(c.entries()) && c.entries().len() >= 1,
    {
        let mut cookie = Cookie::new();
        let chars = chars_of(input);
        let crumbs = split_chars(&chars, ';');
        let ghost pes = parsed_entries(input@);
        proof {
            lemma_split_nonempty(input@, ';');
        }
        let n = crumbs.len();
        let mut i: usize = 0;
        while i < n
            invariant
                n == crumbs.len(),
                i <= n,
                chars@ == input@,
                char_vecs_view(crumbs@) == split_seq(input@, ';'),
                pes == parsed_entries(input@),
                pes.len() == n,
                n >= 1,
                cookie.crumbs_map() == entries_map(pes.take(i as int)),
                cookie.entries() == merged_entries(pes.take(i as int)),
                entries_ok(cookie.entries()),
                i > 0 ==> cookie.entries().len() >= 1,
            decreases n - i,
        {
            let crumb = &crumbs[i];
            let pieces = split_chars(crumb, '=');
            proof {
                lemma_split_nonempty(crumb@, '=');
                assert(crumb@ == split_seq(input@, ';')[i as int]);
                lemma_split_pieces_avoid(input@, ';');
                lemma_split_pieces_avoid(crumb@, '=');
                lemma_pieces_within(crumb@, '=', ';');
                lemma_trim_is_trimmed(pieces@[0]@);
                lemma_trim_within(pieces@[0]@);
                if pieces@.len() > 1 {
                    lemma_trim_is_trimmed(pieces@[1]@);
                    lemma_trim_within(pieces@[1]@);
                }
            }
            let key = string_of(trim_chars(&pieces[0]).as_slice());
            let value = if pieces.len() > 1 {
                string_of(trim_chars(&pieces[1]).as_slice())
            } else {
                "true".to_owned()
            };
            proof {
                reveal_strlit("true");
                assert(flag_value() =~= "true"@);
                assert(pes[i as int] == crumb_entry(crumb@));
                assert(key@ == pes[i as int].0);
                assert(value@ == pes[i as int].1);
                assert(crumb_part_ok(key@));
                assert(crumb_part_ok(value@));
                assert(pes.take(i + 1).drop_last() =~= pes.take(i as int));
            }
            cookie.insert(key, value);
            i = i + 1;
        }
        assert(pes.take(n as int) =~= pes);
        proof {
            use_type_invariant(&cookie);
        }
        Ok(cookie)
    }

    /// The value of `key`, or the empty string when the cookie lacks it.
    pub fn get(&self, key: &str) -> (v: String)
        ensures
            self.crumbs_map().dom().contains(key@) ==> v@ == self.crumbs_map()[key@],
            !self.crumbs_map().dom().contains(key@) ==> v@ == Seq::<char>::empty(),
    {
        proof {
            use_type_invariant(self);
        }
        let ghost es = self.entries();
        let k = key.to_owned();
        let n = self.crumbs.len();
        let mut i: usize = 0;
        while i < n
            invariant
                n == self.crumbs.len(),
                i <= n,
                es == self.entries(),
                keys_distinct(es),
                k@ == key@,
                forall|j: int| 0 <= j < i ==> es[j].0 != key@,
            decreases n - i,
        {
            assert(es[i as int] == (self.crumbs@[i as int].0@, self.crumbs@[i as int].1@));
            if self.crumbs[i].0 == k {
                proof {
                    lemma_entries_map_at(es, i as int);
                }
                return self.crumbs[i].1.clone();
            }
            i = i + 1;
        }
        proof {
            lemma_entries_map_dom(es, key@);
        }
        String::new()
    }

    /// The header text of the cookie: `key=value` crumbs joined with `; `,
    /// in the order in which the keys first came.
    pub fn to_header(&self) -> (s: String)
        ensures
            s@ == header_text(self.entries()),
    {
        let mut parts: Vec<String> = Vec::new();
        let n = self.crumbs.len();
        let mut i: usize = 0;
        while i < n
            invariant
                n == self.crumbs.len(),
                i <= n,
                strings_view(parts@) == self.entries().take(i as int).map_values(
                    |e: CrumbView| crumb_text(e),
                ),
            decreases n - i,
        {
            let ghost before = strings_view(parts@);
            let mut part = self.crumbs[i].0.clone();
            part.append("=");
            part.append(self.crumbs[i].1.as_str());
            proof {
                reveal_strlit("=");
            }
            let ghost part_view = part@;
            parts.push(part);
            proof {
                let e = self.entries()[i as int];
                assert(e == (self.crumbs@[i as int].0@, self.crumbs@[i as int].1@));
                assert(part_view =~= crumb_text(e));
                assert(strings_view(parts@) =~= before.push(part_view));
                assert(strings_view(parts@) =~= self.entries().take(i + 1).map_values(
                    |e: CrumbView| crumb_text(e),
                ));
            }
            i = i + 1;
        }
        assert(self.entries().take(n as int) =~= self.entries());
        let s = join_strings(&parts, "; ");
        proof {
            reveal_strlit("; ");
            assert("; "@ =~= seq![';', ' ']);
        }
        s
    }
}

impl Default for Cookie {
    /// The cookie without crumbs.
    fn default() -> (c: Cookie)
        ensures
            c.entries() == Seq::<CrumbView>::empty(),
            c.crumbs_map() == Map::<Seq<char>, Seq<char>>::empty(),
    {
        Cookie::new()
    }
}

impl From<Cookie> for String {
    /// The header text of the cookie, as `Cookie::to_header` writes it.
    fn from(c: Cookie) -> (s: String)
        ensures
            s@ == header_text(c.entries()),
    {
        c.to_header()
    }
}

impl vstd::std_specs::convert::FromSpecImpl<Cookie> for String {
    /// A string is compared by its text, which `from` states, not as a whole.
    open spec fn obeys_from_spec() -> bool {
        false
    }

    open spec fn from_spec(v: Cookie) -> String {
        choose|s: String| s@ == header_text(v.entries())
    }
}

/// Writing a parsed cookie as a header and parsing that header again gives
/// back the same cookie. Every cookie that `Cookie::parse` returns meets the
/// requirements: at least one crumb, keys and values trimmed and free of `;`
/// and `=`.
pub proof fn law_parsing_the_header_gives_the_cookie(c: Cookie)
    requires
        entries_ok(c.entries()),
        keys_distinct(c.entries()),
        c.entries().len() >= 1,
    ensures
        parsed_entries(header_text(c.entries())) == c.entries(),
        merged_entries(parsed_entries(header_text(c.entries()))) == c.entries(),
        entries_map(parsed_entries(header_text(c.entries()))) == c.crumbs_map(),
{
    lemma_parse_header(c.entries());
    lemma_merged_distinct(c.entries());
}

/// Setting entries whose keys are all different, one after the other, gives
/// those entries.
proof fn lemma_merged_distinct(es: Seq<CrumbView>)
    requires
        keys_distinct(es),
    ensures
        merged_entries(es) == es,
    decreases es.len(),
{
    if es.len() > 0 {
        let init = es.drop_last();
        assert(keys_distinct(init)) by {
            assert forall|i: int, j: int| 0 <= i < j < init.len() implies init[i].0 != init[j].0 by {
                assert(init[i] == es[i] && init[j] == es[j]);
            }
        }
        lemma_merged_distinct(init);
        assert(!(exists|j: int| 0 <= j < init.len() && init[j].0 == es.last().0)) by {
            if exists|j: int| 0 <= j < init.len() && init[j].0 == es.last().0 {
                let j = choose|j: int| 0 <= j < init.len() && init[j].0 == es.last().0;
                assert(init[j] == es[j]);
            }
        }
        assert(init.push(es.last()) =~= es);
    }
}

/// The entries of a header text are the entries it was written from.
pub proof fn lemma_parse_header(es: Seq<CrumbView>)
    requires
        entries_ok(es),
        es.len() >= 1,
    ensures
        parsed_entries(header_text(es)) == es,
{
    let cs = es.map_values(|e: CrumbView| crumb_text(e));
    assert forall|i: int| 0 <= i < cs.len() implies !(#[trigger] cs[i]).contains(';') by {
        lemma_crumb_text_avoids(es[i], ';');
    }
    lemma_split_header(cs);
    let pieces = split_seq(header_text(es), ';');
    assert(header_text(es) == join_seq(cs, seq![';', ' ']));
    let pe = parsed_entries(header_text(es));
    assert forall|i: int| 0 <= i < es.len() implies pe[i] == es[i] by {
        assert(cs[i] == crumb_text(es[i]));
        if i == 0 {
            assert(pieces[i] == cs[i]);
            lemma_crumb_entry_of_text(es[i], false);
        } else {
            assert(pieces[i] == seq![' '] + cs[i]);
            lemma_crumb_entry_of_text(es[i], true);
        }
    }
    assert(pe =~= es);
}

proof fn lemma_crumb_text_avoids(e: CrumbView, x: char)
    requires
        !e.0.contains(x),
        !e.1.contains(x),
        x != '=',
    ensures
        !crumb_text(e).contains(x),
{
    let t = crumb_text(e);
    if t.contains(x) {
        let k = choose|k: int| 0 <= k < t.len() && t[k] == x;
        if k < e.0.len() {
            assert(e.0[k] == x);
        } else if k > e.0.len() {
            assert(e.1[k - e.0.len() - 1] == x);
        }
    }
}

/// The crumb of `key=value`, with or without one leading space, is that key
/// and value.
proof fn lemma_crumb_entry_of_text(e: CrumbView, spaced: bool)
    requires
        crumb_part_ok(e.0),
        crumb_part_ok(e.1),
    ensures
        crumb_entry(if spaced { seq![' '] + crumb_text(e) } else { crumb_text(e) }) == e,
{
    let k = if spaced { seq![' '] + e.0 } else { e.0 };
    assert(!k.contains('=')) by {
        if k.contains('=') {
            let j = choose|j: int| 0 <= j < k.len() && k[j] == '=';
            if spaced {
                assert(j > 0);
                assert(e.0[j - 1] == '=');
            } else {
                assert(e.0[j] == '=');
            }
        }
    }
    let text = if spaced { seq![' '] + crumb_text(e) } else { crumb_text(e) };
    assert(text =~= k + seq!['='] + e.1);
    lemma_split_concat(k, e.1, '=');
    lemma_split_no_sep(k, '=');
    lemma_split_no_sep(e.1, '=');
    let pieces = split_seq(text, '=');
    assert(pieces =~= seq![k, e.1]);
    if spaced {
        lemma_trim_after_white_space(' ', e.0);
    }
    lemma_trim_of_trimmed(e.0);
    lemma_trim_of_trimmed(e.1);
}

/// Splitting crumbs joined with `; ` at `;` gives the crumbs back, each but the
/// first with a leading space.
proof fn lemma_split_header(cs: Seq<Seq<char>>)
    requires
        cs.len() >= 1,
        forall|i: int| 0 <= i < cs.len() ==> !(#[trigger] cs[i]).contains(';'),
    ensures
        split_seq(join_seq(cs, seq![';', ' ']), ';') == Seq::new(
            cs.len(),
            |i: int|
                if i == 0 {
                    cs[0]
                } else {
                    seq![' '] + cs[i]
                },
        ),
    decreases cs.len(),
{
    let target = Seq::new(
        cs.len(),
        |i: int|
            if i == 0 {
                cs[0]
            } else {
                seq![' '] + cs[i]
            },
    );
    if cs.len() == 1 {
        lemma_split_no_sep(cs[0], ';');
        assert(split_seq(join_seq(cs, seq![';', ' ']), ';') =~= target);
    } else {
        let p = cs.drop_last();
        assert forall|i: int| 0 <= i < p.len() implies !(#[trigger] p[i]).contains(';') by {
            assert(p[i] == cs[i]);
        }
        lemma_split_header(p);
        let a = join_seq(p, seq![';', ' ']);
        let b = seq![' '] + cs.last();
        assert(join_seq(cs, seq![';', ' ']) =~= a + seq![';'] + b);
        lemma_split_concat(a, b, ';');
        assert(!b.contains(';')) by {
            if b.contains(';') {
                let j = choose|j: int| 0 <= j < b.len() && b[j] == ';';
                assert(j > 0);
                assert(cs.last()[j - 1] == ';');
                assert(cs[cs.len() - 1].contains(';'));
            }
        }
        lemma_split_no_sep(b, ';');
        assert(split_seq(join_seq(cs, seq![';', ' ']), ';') =~= target);
    }
}

proof fn lemma_entries_map_dom(es: Seq<CrumbView>, k: Seq<char>)
    ensures
        entries_map(es).dom().contains(k) <==> exists|i: int| 0 <= i < es.len() && es[i].0 == k,
    decreases es.len(),
{
    if es.len() > 0 {
        lemma_entries_map_dom(es.drop_last(), k);
        if exists|i: int| 0 <= i < es.drop_last().len() && es.drop_last()[i].0 == k {
            let i = choose|i: int| 0 <= i < es.drop_last().len() && es.drop_last()[i].0 == k;
            assert(es[i].0 == k);
        }
        if exists|i: int| 0 <= i < es.len() && es[i].0 == k {
            let i = choose|i: int| 0 <= i < es.len() && es[i].0 == k;
            if i < es.len() - 1 {
                assert(es.drop_last()[i].0 == k);
            }
        }
    }
}

proof fn lemma_entries_map_at(es: Seq<CrumbView>, i: int)
    requires
        keys_distinct(es),
        0 <= i < es.len(),
    ensures
        entries_map(es).dom().contains(es[i].0),
        entries_map(es)[es[i].0] == es[i].1,
    decreases es.len(),
{
    if i < es.len() - 1 {
        let p = es.drop_last();
        assert(keys_distinct(p));
        assert(p[i] == es[i]);
        lemma_entries_map_at(p, i);
        assert(es.last().0 != es[i].0);
    }
}

proof fn lemma_entries_map_update(es: Seq<CrumbView>, i: int, v: Seq<char>)
    requires
        keys_distinct(es),
        0 <= i < es.len(),
    ensures
        keys_distinct(es.update(i, (es[i].0, v))),
        entries_map(es.update(i, (es[i].0, v))) == entries_map(es).insert(es[i].0, v),
    decreases es.len(),
{
    let u = es.update(i, (es[i].0, v));
    assert(keys_distinct(u)) by {
        assert forall|a: int, b: int| 0 <= a < b < u.len() implies u[a].0 != u[b].0 by {
            assert(u[a].0 == es[a].0);
            assert(u[b].0 == es[b].0);
        }
    }
    if i == es.len() - 1 {
        assert(u.drop_last() =~= es.drop_last());
        let p = es.drop_last();
        assert(keys_distinct(p));
        lemma_entries_map_dom(p, es[i].0);
        assert(entries_map(u) =~= entries_map(es).insert(es[i].0, v));
    } else {
        let p = es.drop_last();
        assert(keys_distinct(p));
        assert(p[i] == es[i]);
        lemma_entries_map_update(p, i, v);
        assert(u.drop_last() =~= p.update(i, (es[i].0, v)));
        assert(es.last().0 != es[i].0);
        assert(entries_map(u) =~= entries_map(es).insert(es[i].0, v));
    }
}

/// Every piece of a split lacks the separator.
proof fn lemma_split_pieces_avoid(s: Seq<char>, sep: char)
    ensures
        forall|i: int| 0 <= i < split_seq(s, sep).len() ==> !(#[trigger] split_seq(s, sep)[i]).contains(
            sep,
        ),
    decreases s.len(),
{
    lemma_split_nonempty(s, sep);
    if s.len() > 0 {
        let t = split_seq(s.drop_last(), sep);
        lemma_split_pieces_avoid(s.drop_last(), sep);
        lemma_split_nonempty(s.drop_last(), sep);
        let r = split_seq(s, sep);
        assert forall|i: int| 0 <= i < r.len() implies !(#[trigger] r[i]).contains(sep) by {
            if s.last() == sep {
                if i < t.len() {
                    assert(r[i] == t[i]);
                } else {
                    assert(r[i] =~= Seq::<char>::empty());
                }
            } else {
                if i < t.len() - 1 {
                    assert(r[i] == t[i]);
                } else {
                    let last = t.last().push(s.last());
                    assert(r[i] == last);
                    if last.contains(sep) {
                        let k = choose|k: int| 0 <= k < last.len() && last[k] == sep;
                        if k < last.len() - 1 {
                            assert(t.last()[k] == sep);
                            assert(t[t.len() - 1].contains(sep));
                        }
                    }
                }
            }
        }
    }
}

/// A character that `s` lacks, no piece of a split of `s` holds.
proof fn lemma_pieces_within(s: Seq<char>, sep: char, x: char)
    requires
        !s.contains(x),
    ensures
        forall|i: int| 0 <= i < split_seq(s, sep).len() ==> !(#[trigger] split_seq(s, sep)[i]).contains(x),
    decreases s.len(),
{
    lemma_split_nonempty(s, sep);
    if s.len() > 0 {
        let p = s.drop_last();
        assert(!p.contains(x)) by {
            if p.contains(x) {
                let k = choose|k: int| 0 <= k < p.len() && p[k] == x;
                assert(s[k] == x);
            }
        }
        assert(s.last() != x) by {
            assert(s[s.len() - 1] == s.last());
        }
        let t = split_seq(p, sep);
        lemma_pieces_within(p, sep, x);
        lemma_split_nonempty(p, sep);
        let r = split_seq(s, sep);
        assert forall|i: int| 0 <= i < r.len() implies !(#[trigger] r[i]).contains(x) by {
            if s.last() == sep {
                if i < t.len() {
                    assert(r[i] == t[i]);
                } else {
                    assert(r[i] =~= Seq::<char>::empty());
                }
            } else {
                if i < t.len() - 1 {
                    assert(r[i] == t[i]);
                } else {
                    let last = t.last().push(s.last());
                    assert(r[i] == last);
                    if last.contains(x) {
                        let k = choose|k: int| 0 <= k < last.len() && last[k] == x;
                        if k < last.len() - 1 {
                            assert(t.last()[k] == x);
                            assert(t[t.len() - 1].contains(x));
                        }
                    }
                }
            }
        }
    }
}

/// Trimming keeps only characters of the text.
proof fn lemma_trim_within(s: Seq<char>)
    ensures
        forall|x: char| !s.contains(x) ==> !trim_seq(s).contains(x),
{
    lemma_trim_start_suffix(s);
    let t = trim_start_seq(s);
    lemma_trim_end_prefix(t);
    assert forall|x: char| !s.contains(x) implies !trim_seq(s).contains(x) by {
        if trim_seq(s).contains(x) {
            let k = choose|k: int| 0 <= k < trim_seq(s).len() && trim_seq(s)[k] == x;
            assert(t[k] == x);
            assert(s[s.len() - t.len() + k] == x);
        }
    }
}

proof fn lemma_trim_start_suffix(s: Seq<char>)
    ensures
        trim_start_seq(s).len() <= s.len(),
        trim_start_seq(s) == s.subrange(s.len() - trim_start_seq(s).len(), s.len() as int),
    decreases s.len(),
{
    if s.len() > 0 && is_white_space(s[0]) {
        lemma_trim_start_suffix(s.drop_first());
        let t = trim_start_seq(s);
        assert(s.drop_first().subrange(
            s.drop_first().len() - t.len(),
            s.drop_first().len() as int,
        ) =~= s.subrange(s.len() - t.len(), s.len() as int));
    } else {
        assert(s.subrange(0, s.len() as int) =~= s);
    }
}

proof fn lemma_trim_end_prefix(s: Seq<char>)
    ensures
        trim_end_seq(s).len() <= s.len(),
        trim_end_seq(s) == s.take(trim_end_seq(s).len() as int),
    decreases s.len(),
{
    if s.len() > 0 && is_white_space(s.last()) {
        lemma_trim_end_prefix(s.drop_last());
        let k = trim_end_seq(s).len() as int;
        assert(s.drop_last().take(k) =~= s.take(k));
    } else {
        assert(s.take(s.len() as int) =~= s);
    }
}

} // verus!
