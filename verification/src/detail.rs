//! The detail line of a workspace row: the git branch checked out in its
//! directory, read from `.git/HEAD`, with a cache that holds each answer
//! until the file's modification time changes.
//!
//! Reading the clock stamp and the file is the caller's part: a lookup says
//! whether the file must be read, and the text read is handed back here.
use vstd::prelude::*;

use crate::paths::{dir_name, dir_name_spec, join_path, join_spec};
use crate::herdr::opt_view;
use crate::shell::{index_of, lemma_index_of};
use crate::text::{chars_of, str_eq, string_from_chars};

verus! {

broadcast use vstd::string::group_string_axioms;

/// Whether `c` is white space as `char::is_whitespace` has it (the Unicode
/// `White_Space` property).
pub open spec fn is_white(c: char) -> bool {
    let u = c as u32;
    (0x9 <= u && u <= 0xd) || u == 0x20 || u == 0x85 || u == 0xa0 || u == 0x1680 || (0x2000
        <= u && u <= 0x200a) || u == 0x2028 || u == 0x2029 || u == 0x202f || u == 0x205f || u
        == 0x3000
}

fn white(c: char) -> (b: bool)
    ensures
        b == is_white(c),
{
    let u = c as u32;
    (0x9 <= u && u <= 0xd) || u == 0x20 || u == 0x85 || u == 0xa0 || u == 0x1680 || (0x2000
        <= u && u <= 0x200a) || u == 0x2028 || u == 0x2029 || u == 0x202f || u == 0x205f || u
        == 0x3000
}

/// `s` without leading white space.
pub open spec fn trim_start(s: Seq<char>) -> Seq<char>
    decreases s.len(),
{
    if s.len() > 0 && is_white(s[0]) {
        trim_start(s.drop_first())
    } else {
        s
    }
}

/// `s` without trailing white space.
pub open spec fn trim_end(s: Seq<char>) -> Seq<char>
    decreases s.len(),
{
    if s.len() > 0 && is_white(s.last()) {
        trim_end(s.drop_last())
    } else {
        s
    }
}

/// `s` without white space at either end, as `str::trim` gives it.
pub open spec fn trim(s: Seq<char>) -> Seq<char> {
    trim_end(trim_start(s))
}

/// Bytes that a character takes in UTF-8.
pub open spec fn utf8_len(c: char) -> nat {
    let u = c as u32;
    if u < 0x80 {
        1
    } else if u < 0x800 {
        2
    } else if u < 0x10000 {
        3
    } else {
        4
    }
}

/// Bytes that a text takes in UTF-8.
pub open spec fn byte_len(s: Seq<char>) -> nat
    decreases s.len(),
{
    if s.len() == 0 {
        0
    } else {
        byte_len(s.drop_last()) + utf8_len(s.last())
    }
}

/// How many characters make up the first `n` bytes of `s`, when `n` falls
/// between two characters.
pub open spec fn chars_in_bytes(s: Seq<char>, n: nat) -> Option<int> {
    if exists|k: int| 0 <= k <= s.len() && byte_len(#[trigger] s.take(k)) == n {
        Some(choose|k: int| 0 <= k <= s.len() && byte_len(#[trigger] s.take(k)) == n)
    } else {
        None
    }
}

/// The prefix of a symbolic reference to a branch.
pub open spec fn branch_ref_prefix() -> Seq<char> {
    "ref: refs/heads/"@
}

/// Length of an abbreviated commit hash.
pub const SHORT_HASH_BYTES: usize = 7;

/// Whether `HEAD` holding `head` can be shown without slicing a character
/// in two: the original cuts a detached hash at its seventh byte.
pub open spec fn head_cuts_cleanly(head: Seq<char>) -> bool {
    let h = trim(head);
    h.len() >= branch_ref_prefix().len() && h.take(branch_ref_prefix().len() as int)
        == branch_ref_prefix() || byte_len(h) < SHORT_HASH_BYTES || chars_in_bytes(h, SHORT_HASH_BYTES as nat) is Some
}

/// What the row shows for a workspace in `cwd` whose `HEAD` file holds
/// `head` (none when it cannot be read): the branch it names, else the
/// first seven bytes of the commit it holds, else the directory's name.
pub open spec fn branch_detail_spec(cwd: Seq<char>, head: Option<Seq<char>>) -> Seq<char> {
    match head {
        None => dir_name_spec(cwd),
        Some(raw) => {
            let h = trim(raw);
            let p = branch_ref_prefix();
            if h.len() >= p.len() && h.take(p.len() as int) == p {
                h.skip(p.len() as int)
            } else if byte_len(h) >= SHORT_HASH_BYTES {
                match chars_in_bytes(h, SHORT_HASH_BYTES as nat) {
                    Some(k) => h.take(k),
                    None => h,
                }
            } else {
                dir_name_spec(cwd)
            }
        },
    }
}

/// A workspace without a directory shows `~`.
pub open spec fn workspace_detail_spec(cwd: Option<Seq<char>>, head: Option<Seq<char>>) -> Seq<
    char,
> {
    match cwd {
        None => "~"@,
        Some(c) => branch_detail_spec(c, head),
    }
}

/// A branch written to `HEAD` reads back as written: a file holding
/// `ref: refs/heads/<b>` and a newline shows `b`, for every name `b` that
/// does not end in white space.
pub proof fn law_branch_reads_back(cwd: Seq<char>, b: Seq<char>)
    requires
        b.len() > 0 ==> !is_white(b.last()),
    ensures
        branch_detail_spec(cwd, Some(branch_ref_prefix() + b + seq!['\n'])) == b,
{
    reveal_strlit("ref: refs/heads/");
    let p = branch_ref_prefix();
    let s = p + b;
    let raw = s + seq!['\n'];
    assert(raw[0] == 'r');
    assert(trim_start(raw) == raw);
    assert(raw.drop_last() =~= s);
    assert(s.last() == if b.len() > 0 { b.last() } else { '/' });
    assert(trim_end(s) == s);
    assert(trim(raw) == s);
    assert(s.take(p.len() as int) =~= p);
    assert(s.skip(p.len() as int) =~= b);
}

/// The path of the `HEAD` file of the repository in `cwd`.
pub fn head_path(cwd: &str) -> (p: String)
    ensures
        p@ == join_spec(cwd@, ".git/HEAD"@),
{
    join_path(cwd, ".git/HEAD")
}

fn trimmed(s: &Vec<char>) -> (out: Vec<char>)
    ensures
        out@ == trim(s@),
{
    let mut a: usize = 0;
    assert(s@.skip(0) =~= s@);
    while a < s.len() && white(s[a])
        invariant
            a <= s.len(),
            trim_start(s@) == trim_start(s@.skip(a as int)),
        decreases s.len() - a,
    {
        assert(s@.skip(a as int).drop_first() =~= s@.skip(a + 1));
        a = a + 1;
    }
    assert(trim_start(s@.skip(a as int)) == s@.skip(a as int));
    let ghost t = s@.skip(a as int);
    let mut b: usize = s.len();
    assert(t.take(t.len() as int) =~= t);
    while b > a && white(s[b - 1])
        invariant
            a <= b <= s.len(),
            t == s@.skip(a as int),
            trim_end(t) == trim_end(t.take(b - a)),
        decreases b,
    {
        assert(t.take(b - a).drop_last() =~= t.take(b - 1 - a));
        b = b - 1;
    }
    assert(trim_end(t.take(b - a)) == t.take(b - a));
    let mut out: Vec<char> = Vec::new();
    let mut i: usize = a;
    while i < b
        invariant
            a <= i <= b <= s.len(),
            t == s@.skip(a as int),
            out@ == t.take(i - a),
        decreases b - i,
    {
        out.push(s[i]);
        assert(t.take(i + 1 - a) =~= t.take(i - a).push(s@[i as int]));
        i = i + 1;
    }
    out
}

fn char_bytes(c: char) -> (n: usize)
    ensures
        n == utf8_len(c),
{
    let u = c as u32;
    if u < 0x80 {
        1
    } else if u < 0x800 {
        2
    } else if u < 0x10000 {
        3
    } else {
        4
    }
}

proof fn lemma_byte_len_grows(s: Seq<char>, i: int, j: int)
    requires
        0 <= i <= j <= s.len(),
    ensures
        byte_len(s.take(i)) + (j - i) <= byte_len(s.take(j)),
    decreases j - i,
{
    if i < j {
        lemma_byte_len_grows(s, i, j - 1);
        assert(s.take(j).drop_last() =~= s.take(j - 1));
    }
}

/// The number of characters in the first `n` bytes of `h`, when `n` falls
/// between two characters.
fn split_at_bytes(h: &Vec<char>, n: usize) -> (r: Option<usize>)
    requires
        0 < n <= 64,
    ensures
        match r {
            Some(k) => k <= h.len() && byte_len(h@.take(k as int)) == n,
            None => chars_in_bytes(h@, n as nat) is None,
        },
{
    let mut k: usize = 0;
    let mut bytes: usize = 0;
    assert(h@.take(0) =~= Seq::<char>::empty());
    while k < h.len() && bytes < n
        invariant
            k <= h.len(),
            0 < n <= 64,
            bytes == byte_len(h@.take(k as int)),
            bytes < n + 4,
            forall|j: int| 0 <= j < k ==> byte_len(#[trigger] h@.take(j)) < n,
        decreases h.len() - k,
    {
        assert(h@.take(k + 1).drop_last() =~= h@.take(k as int));
        bytes = bytes + char_bytes(h[k]);
        k = k + 1;
    }
    if bytes == n {
        return Some(k);
    }
    proof {
        assert forall|j: int| 0 <= j <= h@.len() implies byte_len(#[trigger] h@.take(j)) != n by {
            if j > k {
                lemma_byte_len_grows(h@, k as int, j);
            }
            if j == k {
            }
        }
    }
    None
}

/// Whether the contents of a `HEAD` file can be shown without cutting a
/// character in two.
pub fn head_is_clean(head: &str) -> (b: bool)
    ensures
        b == head_cuts_cleanly(head@),
{
    let h = trimmed(&chars_of(head));
    let p = chars_of("ref: refs/heads/");
    if starts_with(&h, &p) {
        return true;
    }
    match split_at_bytes(&h, SHORT_HASH_BYTES) {
        Some(_) => true,
        None => bytes_below(&h, SHORT_HASH_BYTES),
    }
}

fn starts_with(h: &Vec<char>, p: &Vec<char>) -> (b: bool)
    ensures
        b == (h@.len() >= p@.len() && h@.take(p@.len() as int) == p@),
{
    if h.len() < p.len() {
        return false;
    }
    let mut i: usize = 0;
    while i < p.len()
        invariant
            i <= p.len() <= h.len(),
            forall|j: int| 0 <= j < i ==> h@[j] == p@[j],
        decreases p.len() - i,
    {
        if h[i] != p[i] {
            assert(h@.take(p@.len() as int)[i as int] != p@[i as int]);
            return false;
        }
        i = i + 1;
    }
    assert(h@.take(p@.len() as int) =~= p@);
    true
}

/// Whether `h` takes fewer than `n` bytes in UTF-8.
fn bytes_below(h: &Vec<char>, n: usize) -> (b: bool)
    requires
        0 < n <= 64,
    ensures
        b == (byte_len(h@) < n),
{
    let mut k: usize = 0;
    let mut bytes: usize = 0;
    assert(h@.take(0) =~= Seq::<char>::empty());
    while k < h.len()
        invariant
            k <= h.len(),
            0 < n <= 64,
            bytes == byte_len(h@.take(k as int)),
            bytes < n,
        decreases h.len() - k,
    {
        assert(h@.take(k + 1).drop_last() =~= h@.take(k as int));
        bytes = bytes + char_bytes(h[k]);
        if bytes >= n {
            proof {
                lemma_byte_len_grows(h@, k + 1, h@.len() as int);
                assert(h@.take(h@.len() as int) =~= h@);
            }
            return false;
        }
        k = k + 1;
    }
    assert(h@.take(h.len() as int) =~= h@);
    true
}

/// The detail of a workspace in `cwd` whose `HEAD` file holds `head`, or
/// could not be read (`None`).
pub fn branch_detail(cwd: &str, head: Option<&str>) -> (detail: String)
    requires
        head matches Some(h) ==> head_cuts_cleanly(h@),
    ensures
        detail@ == branch_detail_spec(cwd@, match head {
            Some(h) => Some(h@),
            None => None,
        }),
{
    let raw = match head {
        None => {
            return dir_name(cwd);
        },
        Some(raw) => raw,
    };
    let h = trimmed(&chars_of(raw));
    let p = chars_of("ref: refs/heads/");
    if starts_with(&h, &p) {
        let mut rest: Vec<char> = Vec::new();
        let mut i: usize = p.len();
        while i < h.len()
            invariant
                p.len() <= i <= h.len(),
                rest@ == h@.subrange(p.len() as int, i as int),
            decreases h.len() - i,
        {
            rest.push(h[i]);
            assert(h@.subrange(p.len() as int, i + 1) =~= rest@);
            i = i + 1;
        }
        assert(h@.skip(p.len() as int) =~= rest@);
        return string_from_chars(&rest);
    }
    match split_at_bytes(&h, SHORT_HASH_BYTES) {
        Some(k) => {
            let ghost chosen = chars_in_bytes(h@, SHORT_HASH_BYTES as nat);
            proof {
                assert(byte_len(h@.take(k as int)) == 7);
                lemma_take_unique(h@, k as int, chosen->0);
                if byte_len(h@) < 7 {
                    lemma_byte_len_grows(h@, k as int, h@.len() as int);
                    assert(h@.take(h@.len() as int) =~= h@);
                }
            }
            let mut short: Vec<char> = Vec::new();
            let mut i: usize = 0;
            while i < k
                invariant
                    i <= k <= h.len(),
                    short@ == h@.take(i as int),
                decreases k - i,
            {
                short.push(h[i]);
                assert(h@.take(i + 1) =~= short@);
                i = i + 1;
            }
            string_from_chars(&short)
        },
        None => {
            // Not a branch, and no clean cut at seven bytes: by the
            // precondition the text is shorter than that.
            dir_name(cwd)
        },
    }
}

/// Two prefixes of the same byte length have the same number of characters.
proof fn lemma_take_unique(s: Seq<char>, i: int, j: int)
    requires
        0 <= i <= s.len(),
        0 <= j <= s.len(),
        byte_len(s.take(i)) == byte_len(s.take(j)),
    ensures
        i == j,
{
    if i < j {
        lemma_byte_len_grows(s, i, j);
    } else if j < i {
        lemma_byte_len_grows(s, j, i);
    }
}

/// The detail of a workspace: `~` without a directory, else the branch
/// detail of its directory.
pub fn workspace_detail(cwd: Option<&str>, head: Option<&str>) -> (detail: String)
    requires
        head matches Some(h) ==> head_cuts_cleanly(h@),
    ensures
        detail@ == workspace_detail_spec(
            match cwd {
                Some(c) => Some(c@),
                None => None,
            },
            match head {
                Some(h) => Some(h@),
                None => None,
            },
        ),
{
    match cwd {
        None => String::from_str("~"),
        Some(c) => branch_detail(c, head),
    }
}

/// When a file was last modified, as the file system reports it.
#[derive(Clone, Copy, Debug, PartialEq, Eq, Structural)]
pub struct FileStamp {
    pub secs: u64,
    pub nanos: u32,
}

/// One remembered detail: the directory, the stamp of its `HEAD` file when
/// it was read (none when there was no stamp), and the detail shown.
#[derive(Clone, Debug)]
pub struct CacheEntry {
    pub path: String,
    pub stamp: Option<FileStamp>,
    pub detail: String,
}

/// The details computed so far, one entry per directory.
pub struct DetailCache {
    entries: Vec<CacheEntry>,
}

pub type EntryView = (Seq<char>, Option<FileStamp>, Seq<char>);

impl View for DetailCache {
    type V = Seq<EntryView>;

    closed spec fn view(&self) -> Seq<EntryView> {
        self.entries@.map_values(|e: CacheEntry| (e.path@, e.stamp, e.detail@))
    }
}

pub open spec fn entry_paths(v: Seq<EntryView>) -> Seq<Seq<char>> {
    v.map_values(|e: EntryView| e.0)
}

/// What the cache holds for `path`, if anything.
pub open spec fn cache_lookup(v: Seq<EntryView>, path: Seq<char>) -> Option<EntryView> {
    match index_of(entry_paths(v), path) {
        Some(i) => Some(v[i]),
        None => None,
    }
}

/// A remembered detail is used only while the stamp is unchanged.
pub open spec fn cached_spec(v: Seq<EntryView>, path: Seq<char>, stamp: Option<FileStamp>) -> Option<
    Seq<char>,
> {
    match cache_lookup(v, path) {
        Some(e) => if e.1 == stamp {
            Some(e.2)
        } else {
            None
        },
        None => None,
    }
}

/// Storing replaces the entry of the directory, or adds one.
pub open spec fn store_spec(
    v: Seq<EntryView>,
    path: Seq<char>,
    stamp: Option<FileStamp>,
    detail: Seq<char>,
) -> Seq<EntryView> {
    match index_of(entry_paths(v), path) {
        Some(i) => v.update(i, (path, stamp, detail)),
        None => v.push((path, stamp, detail)),
    }
}

proof fn lemma_store(v: Seq<EntryView>, path: Seq<char>, stamp: Option<FileStamp>, detail: Seq<char>, q: Seq<char>)
    ensures
        cache_lookup(store_spec(v, path, stamp, detail), q) == if q == path {
            Some((path, stamp, detail))
        } else {
            cache_lookup(v, q)
        },
{
    let w = store_spec(v, path, stamp, detail);
    let pv = entry_paths(v);
    let pw = entry_paths(w);
    lemma_index_of(pv, path);
    lemma_index_of(pv, q);
    lemma_index_of(pw, q);
    match index_of(pv, path) {
        Some(i) => {
            assert(pw =~= pv.update(i, path));
        },
        None => {
            assert(pw =~= pv.push(path));
        },
    }
    match index_of(pw, q) {
        Some(k) => {
            if q == path {
                match index_of(pv, path) {
                    Some(i) => {
                        assert(pw[i] == q);
                        assert(!(k < i));
                        assert(!(i < k));
                    },
                    None => {
                        assert(pw[pv.len() as int] == q);
                        assert(k == pv.len());
                    },
                }
            } else {
                assert(pv[k] == q);
                match index_of(pv, q) {
                    Some(m) => {
                        assert(pw[m] == q);
                        assert(!(k < m));
                        assert(!(m < k));
                    },
                    None => {},
                }
            }
        },
        None => {
            if q == path {
                match index_of(pv, path) {
                    Some(i) => {
                        assert(pw[i] == q);
                    },
                    None => {
                        assert(pw[pv.len() as int] == q);
                    },
                }
            } else {
                match index_of(pv, q) {
                    Some(m) => {
                        assert(pw[m] == q);
                    },
                    None => {},
                }
            }
        },
    }
}

impl DetailCache {
    /// An empty cache.
    pub fn new() -> (c: Self)
        ensures
            c@ == Seq::<EntryView>::empty(),
    {
        let c = DetailCache { entries: Vec::new() };
        assert(c@ =~= Seq::<EntryView>::empty());
        c
    }

    fn find(&self, path: &str) -> (r: Option<usize>)
        ensures
            match r {
                Some(i) => i < self.entries@.len() && index_of(entry_paths(self@), path@) == Some(
                    i as int,
                ),
                None => index_of(entry_paths(self@), path@) is None,
            },
    {
        let ghost ps = entry_paths(self@);
        proof {
            lemma_index_of(ps, path@);
        }
        let mut i: usize = 0;
        while i < self.entries.len()
            invariant
                i <= self.entries.len(),
                ps == entry_paths(self@),
                ps.len() == self.entries.len(),
                forall|j: int| 0 <= j < i ==> ps[j] != path@,
                index_of(ps, path@) matches Some(k) ==> 0 <= k < ps.len() && ps[k] == path@
                    && forall|j: int| 0 <= j < k ==> ps[j] != path@,
                index_of(ps, path@) is None ==> forall|j: int| 0 <= j < ps.len() ==> ps[j] != path@,
            decreases self.entries.len() - i,
        {
            assert(ps[i as int] == self.entries@[i as int].path@);
            if str_eq(self.entries[i].path.as_str(), path) {
                return Some(i);
            }
            i = i + 1;
        }
        None
    }

    /// The detail remembered for `path`, when its `HEAD` file still has
    /// the stamp it had when read.
    pub fn cached(&self, path: &str, stamp: Option<FileStamp>) -> (r: Option<String>)
        ensures
            opt_view(r) == cached_spec(self@, path@, stamp),
    {
        match self.find(path) {
            Some(i) => {
                let e = &self.entries[i];
                assert(self@[i as int] == (e.path@, e.stamp, e.detail@));
                if e.stamp == stamp {
                    Some(e.detail.clone())
                } else {
                    None
                }
            },
            None => None,
        }
    }

    /// Remembers `detail` for `path` at `stamp`.
    pub fn store(&mut self, path: &str, stamp: Option<FileStamp>, detail: String)
        ensures
            final(self)@ == store_spec(old(self)@, path@, stamp, detail@),
    {
        let ghost d = detail@;
        let entry = CacheEntry { path: String::from_str(path), stamp, detail };
        match self.find(path) {
            Some(i) => {
                self.entries.set(i, entry);
                assert(self@ =~= store_spec(old(self)@, path@, stamp, d));
            },
            None => {
                self.entries.push(entry);
                assert(self@ =~= store_spec(old(self)@, path@, stamp, d));
            },
        }
    }
}

/// What a lookup of a workspace's detail found.
#[derive(Clone, Debug, PartialEq, Eq)]
pub enum DetailLookup {
    /// The detail, without reading anything.
    Known(String),
    /// The `HEAD` file at this path must be read.
    ReadHead(String),
}

pub enum DetailLookupView {
    Known(Seq<char>),
    ReadHead(Seq<char>),
}

impl View for DetailLookup {
    type V = DetailLookupView;

    open spec fn view(&self) -> DetailLookupView {
        match self {
            DetailLookup::Known(d) => DetailLookupView::Known(d@),
            DetailLookup::ReadHead(p) => DetailLookupView::ReadHead(p@),
        }
    }
}

/// A workspace without a directory shows `~`; one whose `HEAD` file kept
/// its stamp shows what was computed before; any other must read the file.
pub open spec fn lookup_detail_spec(
    v: Seq<EntryView>,
    cwd: Option<Seq<char>>,
    stamp: Option<FileStamp>,
) -> DetailLookupView {
    match cwd {
        None => DetailLookupView::Known("~"@),
        Some(c) => match cached_spec(v, c, stamp) {
            Some(d) => DetailLookupView::Known(d),
            None => DetailLookupView::ReadHead(join_spec(c, ".git/HEAD"@)),
        },
    }
}

pub fn lookup_detail(cache: &DetailCache, cwd: Option<&str>, stamp: Option<FileStamp>) -> (r: DetailLookup)
    ensures
        r@ == lookup_detail_spec(
            cache@,
            match cwd {
                Some(c) => Some(c@),
                None => None,
            },
            stamp,
        ),
{
    match cwd {
        None => DetailLookup::Known(String::from_str("~")),
        Some(c) => match cache.cached(c, stamp) {
            Some(d) => DetailLookup::Known(d),
            None => DetailLookup::ReadHead(head_path(c)),
        },
    }
}

/// Computes the detail of `cwd` from what its `HEAD` file held at `stamp`
/// (none when it could not be read), and remembers it.
pub fn record_detail(cache: &mut DetailCache, cwd: &str, stamp: Option<FileStamp>, head: Option<&str>) -> (detail: String)
    requires
        head matches Some(h) ==> head_cuts_cleanly(h@),
    ensures
        detail@ == branch_detail_spec(
            cwd@,
            match head {
                Some(h) => Some(h@),
                None => None,
            },
        ),
        final(cache)@ == store_spec(old(cache)@, cwd@, stamp, detail@),
{
    let detail = branch_detail(cwd, head);
    cache.store(cwd, stamp, detail.clone());
    detail
}

/// A detail that was recorded is given back while the stamp of `HEAD`
/// stays the same, and the file is read again once the stamp changes;
/// other directories keep what they had.
pub proof fn law_detail_kept_until_head_changes(
    v: Seq<EntryView>,
    cwd: Seq<char>,
    stamp: Option<FileStamp>,
    detail: Seq<char>,
    later: Option<FileStamp>,
    other: Seq<char>,
    other_stamp: Option<FileStamp>,
)
    ensures
        lookup_detail_spec(store_spec(v, cwd, stamp, detail), Some(cwd), stamp)
            == DetailLookupView::Known(detail),
        later != stamp ==> lookup_detail_spec(store_spec(v, cwd, stamp, detail), Some(cwd), later)
            == DetailLookupView::ReadHead(join_spec(cwd, ".git/HEAD"@)),
        other != cwd ==> lookup_detail_spec(store_spec(v, cwd, stamp, detail), Some(other), other_stamp)
            == lookup_detail_spec(v, Some(other), other_stamp),
{
    lemma_store(v, cwd, stamp, detail, cwd);
    lemma_store(v, cwd, stamp, detail, other);
}

} // verus!
