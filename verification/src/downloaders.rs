//! Downloads: what to fetch and where it goes, the byte ranges of chunked
//! downloads, and the tally of a download run.

use vstd::prelude::*;

use crate::errors::Report;
use crate::gatherers::Media;
use crate::paths::{path_debug, path_debug_text, path_join, path_join_seq};
use crate::text::{decimal_seq, parse_u64, u64_decimal, u64_text_value};

verus! {

/// The settings of the HTTP client.
#[derive(Debug, Clone, Copy, Default)]
pub struct ApiClientConfig {}

/// Downloads a whole file into memory before it is written.
#[derive(Debug, Clone, Copy)]
pub struct InMemoryFileDownloader;

/// Downloads a file in ranges of bytes.
#[derive(Debug, Clone, Copy)]
pub struct StreamingFileDownloader;

/// A downloader of many files that goes by a name.
pub trait BatchDownloader {
    fn name(&self) -> String;
}

/// A file to fetch from `public_url` and save as `file_name` in `base_path`.
#[derive(Debug)]
pub struct Downloadable {
    pub public_url: String,
    pub file_name: String,
    pub base_path: String,
}

impl Downloadable {
    /// Where the file is saved: the base path joined with the file name.
    pub fn get_file_path(&self) -> (p: String)
        ensures
            p@ == path_join_seq(self.base_path@, self.file_name@),
    {
        path_join(self.base_path.as_str(), self.file_name.as_str())
    }

    /// The download of `media` into the folder `path`.
    pub fn from_media_with_path(media: &Media, path: String) -> (d: Downloadable)
        ensures
            d.file_name@ == media.file_name@,
            d.base_path@ == path@,
            d.public_url@ == media.url@,
    {
        Downloadable {
            file_name: media.file_name.clone(),
            base_path: path,
            public_url: media.url.clone(),
        }
    }

    /// The file path written with `Debug`.
    pub fn display_text(&self) -> (s: String)
        ensures
            s@ == path_debug_text(path_join_seq(self.base_path@, self.file_name@)),
    {
        let p = self.get_file_path();
        path_debug(p.as_str())
    }
}

/// A download made from a media at a folder is saved in that folder under the
/// media's file name.
pub proof fn law_media_download_path(media: Media, path: String, d: Downloadable)
    requires
        d.file_name@ == media.file_name@,
        d.base_path@ == path@,
        d.public_url@ == media.url@,
    ensures
        path_join_seq(d.base_path@, d.file_name@) == path_join_seq(path@, media.file_name@),
{
}

/// The tally of a download run.
#[derive(Debug, Clone, Copy)]
pub struct DownloaderStats {
    pub total: usize,
    pub failed: usize,
    pub success: usize,
    pub previously_saved: usize,
}

/// The tally is consistent: every counted item is failed, saved or found saved before.
pub open spec fn stats_consistent(s: DownloaderStats) -> bool {
    s.total == s.failed + s.success + s.previously_saved
}

impl Default for DownloaderStats {
    fn default() -> (s: DownloaderStats)
        ensures
            s.total == 0 && s.failed == 0 && s.success == 0 && s.previously_saved == 0,
    {
        DownloaderStats { total: 0, failed: 0, success: 0, previously_saved: 0 }
    }
}

impl DownloaderStats {
    /// Counts one finished item: `None` for a failed download, `Some(0)` for a
    /// file that was saved already, `Some(n)` for `n` bytes written.
    pub fn record(&mut self, bytes_written: Option<u64>)
        requires
            old(self).total < usize::MAX,
            old(self).failed < usize::MAX,
            old(self).success < usize::MAX,
            old(self).previously_saved < usize::MAX,
        ensures
            final(self).total == old(self).total + 1,
            stats_consistent(*old(self)) ==> stats_consistent(*final(self)),
            bytes_written is None ==> final(self).failed == old(self).failed + 1
                && final(self).success == old(self).success
                && final(self).previously_saved == old(self).previously_saved,
            bytes_written == Some(0u64) ==> final(self).previously_saved == old(self).previously_saved + 1
                && final(self).success == old(self).success
                && final(self).failed == old(self).failed,
            (bytes_written matches Some(n) && n > 0) ==> final(self).success == old(self).success + 1
                && final(self).failed == old(self).failed
                && final(self).previously_saved == old(self).previously_saved,
    {
        self.total = self.total + 1;
        match bytes_written {
            Some(n) => {
                if n == 0 {
                    self.previously_saved = self.previously_saved + 1;
                } else {
                    self.success = self.success + 1;
                }
            },
            None => {
                self.failed = self.failed + 1;
            },
        }
    }
}

/// The byte ranges of a chunked download of the bytes `start..=end`, in order:
/// each but the last holds `size` bytes.
pub open spec fn byte_ranges(start: nat, end: nat, size: nat) -> Seq<(nat, nat)>
    decreases end + 1 - start,
    when size > 0
{
    if start > end {
        Seq::empty()
    } else {
        let last = if start + size - 1 < end {
            (start + size - 1) as nat
        } else {
            end
        };
        seq![(start, last)] + byte_ranges(last + 1, end, size)
    }
}

/// The text of a range header: `bytes=<first>-<last>`.
pub open spec fn range_header_text(first: nat, last: nat) -> Seq<char> {
    seq!['b', 'y', 't', 'e', 's', '='] + decimal_seq(first) + seq!['-'] + decimal_seq(last)
}

/// The ranges cover `start..=end` in order: the first begins at `start`, each
/// next one right after the one before, the last ends at `end`; every range
/// but the last holds exactly `size` bytes and the last between one and
/// `size`, so there are `(end - start + size) / size` of them, the number of
/// bytes divided by `size` and rounded up.
pub proof fn law_byte_ranges_partition(start: nat, end: nat, size: nat)
    requires
        size > 0,
        start <= end,
    ensures
        ({
            let r = byte_ranges(start, end, size);
            &&& r.len() > 0
            &&& r.len() == (end - start + size) / (size as int)
            &&& r[0].0 == start
            &&& r.last().1 == end
            &&& forall|i: int| 0 <= i < r.len() ==> r[i].0 <= (#[trigger] r[i]).1 && r[i].1 - r[i].0 < size
            &&& forall|i: int| 0 <= i < r.len() - 1 ==> (#[trigger] r[i]).1 - r[i].0 + 1 == size
            &&& forall|i: int| 0 <= i < r.len() - 1 ==> (#[trigger] r[i + 1]).0 == r[i].1 + 1
        }),
    decreases end + 1 - start,
{
    let r = byte_ranges(start, end, size);
    let last = if start + size - 1 < end {
        (start + size - 1) as nat
    } else {
        end
    };
    let rest = byte_ranges(last + 1, end, size);
    assert(r == seq![(start, last)] + rest);
    assert(r[0] == (start, last));
    if last < end {
        law_byte_ranges_partition(last + 1, end, size);
        assert(rest.len() > 0);
        assert(r[1] == rest[0]);
        assert forall|i: int| 0 <= i < r.len() implies r[i].0 <= (#[trigger] r[i]).1 && r[i].1
            - r[i].0 < size by {
            if i > 0 {
                assert(r[i] == rest[i - 1]);
            }
        }
        assert forall|i: int| 0 <= i < r.len() - 1 implies (#[trigger] r[i]).1 - r[i].0 + 1 == size by {
            if i > 0 {
                assert(r[i] == rest[i - 1]);
            }
        }
        assert forall|i: int| 0 <= i < r.len() - 1 implies (#[trigger] r[i + 1]).0 == r[i].1 + 1 by {
            assert(r[i + 1] == rest[i]);
            if i > 0 {
                assert(r[i] == rest[i - 1]);
                assert(rest[(i - 1) + 1].0 == rest[i - 1].1 + 1);
            } else {
                assert(rest[0].0 == last + 1);
            }
        }
        assert(r.last() == rest.last());
        let a = end - (last + 1) + size;
        let q = a / (size as int);
        let m = a % (size as int);
        vstd::arithmetic::div_mod::lemma_fundamental_div_mod(a, size as int);
        vstd::arithmetic::div_mod::lemma_mod_pos_bound(a, size as int);
        assert(end - start + size == a + size);
        assert(a + size == (q + 1) * size + m) by (nonlinear_arith)
            requires
                a == size * q + m,
        ;
        vstd::arithmetic::div_mod::lemma_fundamental_div_mod_converse(
            a + size,
            size as int,
            q + 1,
            m,
        );
        assert(rest.len() == q);
        assert(r.len() == rest.len() + 1);
    } else {
        assert(rest.len() == 0);
        assert(r =~= seq![(start, last)]);
        let n = end - start + size;
        assert(n == 1 * size + (end - start));
        vstd::arithmetic::div_mod::lemma_fundamental_div_mod_converse(
            n,
            size as int,
            1,
            end - start,
        );
    }
}

/// The ranges of a chunked download, one after the other.
#[derive(Debug)]
pub struct PartialRangeIter {
    start: u64,
    end: u64,
    buffer_size: u32,
}

impl PartialRangeIter {
    #[verifier::type_invariant]
    closed spec fn inv(&self) -> bool {
        self.buffer_size > 0
    }

    /// The first byte not yet handed out.
    pub closed spec fn next_start(&self) -> nat {
        self.start as nat
    }

    /// The last byte of the download.
    pub closed spec fn last_byte(&self) -> nat {
        self.end as nat
    }

    /// The largest number of bytes in one range.
    pub closed spec fn chunk_size(&self) -> nat {
        self.buffer_size as nat
    }

    /// The ranges still to come.
    pub open spec fn remaining(&self) -> Seq<(nat, nat)> {
        byte_ranges(self.next_start(), self.last_byte(), self.chunk_size())
    }

    /// Handing out the next range does not overflow: it overflows only when
    /// the download ends at the largest byte number and the range reaching it
    /// is the next one or the whole download starts at byte zero.
    pub open spec fn next_fits(&self) -> bool {
        !(self.next_start() <= self.last_byte() && self.last_byte() == u64::MAX && (self.next_start() == 0
            || self.last_byte() + 1 - self.next_start() <= self.chunk_size()))
    }

    /// The ranges of `start..=end` in chunks of `buffer_size` bytes; a
    /// buffer size of zero is refused.
    pub fn new(start: u64, end: u64, buffer_size: u32) -> (r: Result<PartialRangeIter, Report>)
        ensures
            r is Err <==> buffer_size == 0,
            r matches Err(e) ==> e.message@ == "invalid buffer_size, give a value greater than zero."@,
            r matches Ok(it) ==> it.next_start() == start && it.last_byte() == end
                && it.chunk_size() == buffer_size,
    {
        if buffer_size == 0 {
            return Err(Report { message: "invalid buffer_size, give a value greater than zero.".to_owned() });
        }
        Ok(PartialRangeIter { start, end, buffer_size })
    }

    /// The next range as its first and last byte, or `None` once the download
    /// is covered.
    pub fn next_range(&mut self) -> (r: Option<(u64, u64)>)
        requires
            old(self).next_fits(),
        ensures
            old(self).remaining().len() == 0 <==> r is None,
            r matches Some(p) ==> (p.0 as nat, p.1 as nat) == old(self).remaining()[0],
            r is Some ==> final(self).remaining() == old(self).remaining().drop_first(),
            r is None ==> final(self).next_start() == old(self).next_start(),
            final(self).last_byte() == old(self).last_byte(),
            final(self).chunk_size() == old(self).chunk_size(),
    {
        proof {
            use_type_invariant(&*self);
        }
        if self.start > self.end {
            return None;
        }
        let prev_start = self.start;
        let left = self.end - self.start + 1;
        let step: u64 = if (self.buffer_size as u64) < left {
            self.buffer_size as u64
        } else {
            left
        };
        self.start = self.start + step;
        proof {
            let r = byte_ranges(prev_start as nat, self.end as nat, self.buffer_size as nat);
            assert(r == seq![(prev_start as nat, (self.start - 1) as nat)] + byte_ranges(
                self.start as nat,
                self.end as nat,
                self.buffer_size as nat,
            ));
            assert(r.drop_first() =~= byte_ranges(self.start as nat, self.end as nat, self.buffer_size as nat));
        }
        Some((prev_start, self.start - 1))
    }

    /// The `Range` header for the next range, `bytes=<first>-<last>`, as its
    /// ASCII bytes, or `None` once the download is covered.
    pub fn next(&mut self) -> (r: Option<Vec<u8>>)
        requires
            old(self).next_fits(),
        ensures
            old(self).remaining().len() == 0 <==> r is None,
            r matches Some(h) ==> h@ == ascii_bytes(
                range_header_text(old(self).remaining()[0].0, old(self).remaining()[0].1),
            ),
            old(self).remaining().len() > 0 ==> final(self).remaining() == old(self).remaining().drop_first(),
            r is None ==> final(self).next_start() == old(self).next_start(),
            final(self).last_byte() == old(self).last_byte(),
            final(self).chunk_size() == old(self).chunk_size(),
    {
        match self.next_range() {
            None => None,
            Some((first, last)) => Some(range_header(first, last)),
        }
    }
}

/// The bytes of ASCII text, one per character.
pub open spec fn ascii_bytes(s: Seq<char>) -> Seq<u8> {
    s.map_values(|c: char| (c as u32) as u8)
}

/// The bytes of the range header `bytes=<first>-<last>`, all of them ASCII.
pub fn range_header(first: u64, last: u64) -> (b: Vec<u8>)
    ensures
        b@ == ascii_bytes(range_header_text(first as nat, last as nat)),
        forall|i: int| 0 <= i < b@.len() ==> b@[i] < 128,
{
    let mut chars: Vec<char> = Vec::new();
    chars.push('b');
    chars.push('y');
    chars.push('t');
    chars.push('e');
    chars.push('s');
    chars.push('=');
    let a = u64_decimal(first);
    let mut i: usize = 0;
    while i < a.len()
        invariant
            i <= a.len(),
            chars@ == seq!['b', 'y', 't', 'e', 's', '='] + a@.take(i as int),
        decreases a.len() - i,
    {
        chars.push(a[i]);
        assert(a@.take(i + 1) =~= a@.take(i as int).push(a@[i as int]));
        assert(chars@ =~= seq!['b', 'y', 't', 'e', 's', '='] + a@.take(i + 1));
        i = i + 1;
    }
    assert(a@.take(a.len() as int) =~= a@);
    chars.push('-');
    let z = u64_decimal(last);
    let ghost head = chars@;
    let mut j: usize = 0;
    while j < z.len()
        invariant
            j <= z.len(),
            chars@ == head + z@.take(j as int),
        decreases z.len() - j,
    {
        chars.push(z[j]);
        assert(z@.take(j + 1) =~= z@.take(j as int).push(z@[j as int]));
        assert(chars@ =~= head + z@.take(j + 1));
        j = j + 1;
    }
    assert(z@.take(z.len() as int) =~= z@);
    let ghost text = range_header_text(first as nat, last as nat);
    assert(chars@ =~= text);
    proof {
        lemma_range_header_ascii(first as nat, last as nat);
    }
    let mut bytes: Vec<u8> = Vec::new();
    let mut k: usize = 0;
    while k < chars.len()
        invariant
            k <= chars.len(),
            chars@ == text,
            forall|x: int| 0 <= x < text.len() ==> ((#[trigger] text[x]) as u32) < 128,
            bytes@ == ascii_bytes(text.take(k as int)),
        decreases chars.len() - k,
    {
        let c = chars[k];
        let u = c as u32;
        assert(u < 128);
        bytes.push(u as u8);
        assert(ascii_bytes(text.take(k + 1)) =~= ascii_bytes(text.take(k as int)).push(
            (c as u32) as u8,
        ));
        k = k + 1;
    }
    assert(text.take(text.len() as int) =~= text);
    bytes
}

proof fn lemma_range_header_ascii(first: nat, last: nat)
    ensures
        forall|x: int|
            0 <= x < range_header_text(first, last).len() ==> (#[trigger] range_header_text(
                first,
                last,
            )[x]) as u32 <= 122,
{
    lemma_decimal_ascii(first);
    lemma_decimal_ascii(last);
    let p = seq!['b', 'y', 't', 'e', 's', '='];
    let a = decimal_seq(first);
    let z = decimal_seq(last);
    let t = range_header_text(first, last);
    assert(t == p + a + seq!['-'] + z);
    assert forall|x: int| 0 <= x < t.len() implies (#[trigger] t[x]) as u32 <= 122 by {
        if x < 6 {
            assert(t[x] == p[x]);
        } else if x < 6 + a.len() {
            assert(t[x] == a[x - 6]);
        } else if x == 6 + a.len() {
            assert(t[x] == '-');
        } else {
            assert(t[x] == z[x - 7 - a.len()]);
        }
    }
}

proof fn lemma_decimal_ascii(n: nat)
    ensures
        forall|x: int| 0 <= x < decimal_seq(n).len() ==> (#[trigger] decimal_seq(n)[x]) as u32 <= 57,
    decreases n,
{
    if n >= 10 {
        lemma_decimal_ascii(n / 10);
        let d = decimal_seq(n);
        assert forall|x: int| 0 <= x < d.len() implies (#[trigger] d[x]) as u32 <= 57 by {
            if x < d.len() - 1 {
                assert(d[x] == decimal_seq(n / 10)[x]);
            }
        }
    }
}

/// The length of a download as its `Content-Length` header gives it: zero
/// when there is no header, `None` when the header's text is no number.
pub fn content_length_of(header: Option<&str>) -> (r: Option<u64>)
    ensures
        header is None ==> r == Some(0u64),
        header matches Some(h) ==> r == u64_text_value(h@),
{
    match header {
        Some(h) => parse_u64(h),
        None => Some(0),
    }
}

/// A file on disk is taken as saved already when it holds exactly as many
/// bytes as the download has.
pub fn already_saved(existing_len: u64, content_length: u64) -> (b: bool)
    ensures
        b == (existing_len == content_length),
{
    existing_len == content_length
}

} // verus!

