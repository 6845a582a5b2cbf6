//! SD-card file-system access: the types that the browser works with, the
//! file-system interface, path handling and human-readable sizes.

use vstd::prelude::*;
use vstd::string::*;
use vstd::utf8::*;
use vstd::slice::slice_to_vec;

verus! {

// =============================================================================
// Public types
// =============================================================================

/// One entry of a directory listing.
#[derive(Debug, Clone)]
pub struct DirEntryInfo {
    /// Long file name (shown to the user).
    pub name: String,
    /// Short 8.3 file name (used to open the entry).
    pub short_name: String,
    /// Whether the entry is a directory.
    pub is_dir: bool,
    /// File size in bytes.
    pub size: u32,
}

/// Errors of SD-card access.
#[derive(Debug, Clone, Copy, PartialEq, Eq, Structural)]
pub enum SdError {
    /// No file system has been installed.
    NotInitialized,
    /// The directory could not be opened.
    NoDirectory,
    /// The file or directory was not found.
    NotFound,
    /// Reading failed.
    ReadError,
    /// Writing failed.
    WriteError,
    /// The card itself reported an error.
    SdCardError,
    /// The file name is not valid.
    FilenameError,
    /// Directories are nested too deeply (no handles left).
    DirTooDeep,
    /// The file is too large.
    FileTooLarge,
}

/// The text that `{:?}` gives for an error: the name of its variant.
pub open spec fn sd_error_text(e: SdError) -> Seq<char> {
    match e {
        SdError::NotInitialized => "NotInitialized"@,
        SdError::NoDirectory => "NoDirectory"@,
        SdError::NotFound => "NotFound"@,
        SdError::ReadError => "ReadError"@,
        SdError::WriteError => "WriteError"@,
        SdError::SdCardError => "SdCardError"@,
        SdError::FilenameError => "FilenameError"@,
        SdError::DirTooDeep => "DirTooDeep"@,
        SdError::FileTooLarge => "FileTooLarge"@,
    }
}

impl SdError {
    /// The debug text of the error (the variant's name).
    pub fn debug_name(&self) -> (r: &'static str)
        ensures
            r@ == sd_error_text(*self),
    {
        match self {
            SdError::NotInitialized => "NotInitialized",
            SdError::NoDirectory => "NoDirectory",
            SdError::NotFound => "NotFound",
            SdError::ReadError => "ReadError",
            SdError::WriteError => "WriteError",
            SdError::SdCardError => "SdCardError",
            SdError::FilenameError => "FilenameError",
            SdError::DirTooDeep => "DirTooDeep",
            SdError::FileTooLarge => "FileTooLarge",
        }
    }
}

// =============================================================================
// Paths
// =============================================================================

/// Index of the last `'/'` in `s`, or -1 when there is none.
pub open spec fn last_slash(s: Seq<char>) -> int
    decreases s.len(),
{
    if s.len() == 0 {
        -1
    } else if s.last() == '/' {
        s.len() - 1
    } else {
        last_slash(s.drop_last())
    }
}

/// A path split at its last `'/'` into directory part and file name; a path
/// without `'/'` is a file name in the root directory.
pub open spec fn split_path_spec(s: Seq<char>) -> (Seq<char>, Seq<char>) {
    let p = last_slash(s);
    if p < 0 {
        (Seq::empty(), s)
    } else {
        (s.subrange(0, p), s.subrange(p + 1, s.len() as int))
    }
}

/// `name` inside directory `dir` (the root directory is the empty path).
pub open spec fn join_path_spec(dir: Seq<char>, name: Seq<char>) -> Seq<char> {
    if dir.len() == 0 {
        name
    } else {
        dir + seq!['/'] + name
    }
}

pub proof fn lemma_last_slash_bounds(s: Seq<char>)
    ensures
        -1 <= last_slash(s) < s.len(),
        last_slash(s) >= 0 ==> s[last_slash(s)] == '/',
        forall|k: int| last_slash(s) < k < s.len() ==> s[k] != '/',
    decreases s.len(),
{
    if s.len() > 0 && s.last() != '/' {
        lemma_last_slash_bounds(s.drop_last());
        assert forall|k: int| last_slash(s) < k < s.len() implies s[k] != '/' by {
            if k < s.len() - 1 {
                assert(s[k] == s.drop_last()[k]);
            }
        }
    }
}

/// Appending text without `'/'` does not move the last `'/'`.
proof fn lemma_last_slash_append(a: Seq<char>, b: Seq<char>)
    requires
        forall|k: int| 0 <= k < b.len() ==> b[k] != '/',
    ensures
        last_slash(a + b) == last_slash(a),
    decreases b.len(),
{
    if b.len() > 0 {
        let b1 = b.drop_last();
        assert((a + b).drop_last() =~= a + b1);
        assert((a + b).last() == b.last());
        lemma_last_slash_append(a, b1);
    } else {
        assert(a + b =~= a);
    }
}

/// When `s[i..]` holds no `'/'`, the last `'/'` of `s` is the last one of `s[..i]`.
proof fn lemma_last_slash_prefix(s: Seq<char>, i: int)
    requires
        0 <= i <= s.len(),
        forall|k: int| i <= k < s.len() ==> s[k] != '/',
    ensures
        last_slash(s) == last_slash(s.subrange(0, i)),
{
    let b = s.subrange(i, s.len() as int);
    assert(s =~= s.subrange(0, i) + b);
    lemma_last_slash_append(s.subrange(0, i), b);
}

/// Index of the last `'/'` of `s`, if any.
fn find_last_slash(s: &str) -> (r: Option<usize>)
    ensures
        match r {
            Some(p) => p == last_slash(s@),
            None => last_slash(s@) == -1,
        },
{
    let n = s.unicode_len();
    let mut i: usize = n;
    while i > 0
        invariant
            i <= n,
            n == s@.len(),
            forall|k: int| i <= k < n ==> s@[k] != '/',
        decreases i,
    {
        let c = s.get_char(i - 1);
        if c == '/' {
            proof {
                lemma_last_slash_prefix(s@, i as int);
                assert(s@.subrange(0, i as int).last() == '/');
            }
            return Some(i - 1);
        }
        i = i - 1;
    }
    proof {
        lemma_last_slash_prefix(s@, 0);
    }
    None
}

/// Splits a path into its directory part and its file name.
pub fn split_path(path: &str) -> (r: (String, String))
    ensures
        (r.0@, r.1@) == split_path_spec(path@),
{
    proof {
        lemma_last_slash_bounds(path@);
    }
    match find_last_slash(path) {
        Some(pos) => {
            let n = path.unicode_len();
            let dir = String::from_str(path.substring_char(0, pos));
            let file = String::from_str(path.substring_char(pos + 1, n));
            (dir, file)
        },
        None => (String::new(), String::from_str(path)),
    }
}

/// The path of entry `name` inside directory `dir`.
pub fn join_path(dir: &str, name: &str) -> (r: String)
    ensures
        r@ == join_path_spec(dir@, name@),
{
    if dir.unicode_len() == 0 {
        String::from_str(name)
    } else {
        let mut p = String::from_str(dir);
        p.append("/");
        p.append(name);
        proof {
            reveal_strlit("/");
        }
        p
    }
}

/// Law: splitting the path of `name` inside `dir` gives back `dir` and
/// `name`, for every name without `'/'`.
pub proof fn law_split_join(dir: Seq<char>, name: Seq<char>)
    requires
        forall|k: int| 0 <= k < name.len() ==> name[k] != '/',
    ensures
        split_path_spec(join_path_spec(dir, name)) == (dir, name),
{
    lemma_last_slash_append(Seq::empty(), name);
    assert(Seq::<char>::empty() + name =~= name);
    if dir.len() > 0 {
        let a = dir + seq!['/'];
        assert(join_path_spec(dir, name) =~= a + name);
        lemma_last_slash_append(a, name);
        assert(a.drop_last() =~= dir);
        let j = a + name;
        assert(j.subrange(0, dir.len() as int) =~= dir);
        assert(j.subrange(dir.len() as int + 1, j.len() as int) =~= name);
    }
}


/// The non-empty `'/'`-separated components of a path, in order.
pub open spec fn path_components_spec(s: Seq<char>) -> Seq<Seq<char>>
    decreases s.len(),
{
    if s.len() == 0 {
        seq![]
    } else {
        let p = last_slash(s);
        proof {
            lemma_last_slash_bounds(s);
        }
        let seg = s.subrange(p + 1, s.len() as int);
        let front = if p >= 0 {
            s.subrange(0, p)
        } else {
            Seq::<char>::empty()
        };
        path_components_spec(front) + if seg.len() > 0 {
            seq![seg]
        } else {
            seq![]
        }
    }
}

/// A path whose last character is `'/'` has the components of the path
/// before it.
proof fn lemma_components_slash_end(t: Seq<char>)
    requires
        t.len() > 0,
        t.last() == '/',
    ensures
        path_components_spec(t) == path_components_spec(t.drop_last()),
{
    assert(t.subrange(0, t.len() - 1) =~= t.drop_last());
    assert(t.subrange(t.len() as int, t.len() as int) =~= Seq::<char>::empty());
    assert(path_components_spec(t.drop_last()) + Seq::<Seq<char>>::empty() =~= path_components_spec(
        t.drop_last(),
    ));
}

/// A path whose tail from `start` holds no `'/'`: its components are those
/// before `start` followed by the tail, when the tail is not empty.
proof fn lemma_components_tail(t: Seq<char>, start: int)
    requires
        0 <= start <= t.len(),
        start == 0 || t[start - 1] == '/',
        forall|k: int| start <= k < t.len() ==> t[k] != '/',
    ensures
        path_components_spec(t) == path_components_spec(t.subrange(0, start)) + if start < t.len() {
            seq![t.subrange(start, t.len() as int)]
        } else {
            Seq::<Seq<char>>::empty()
        },
{
    lemma_last_slash_prefix(t, start);
    lemma_last_slash_bounds(t.subrange(0, start));
    if start == 0 {
        assert(last_slash(t.subrange(0, 0)) == -1);
        if t.len() > 0 {
            assert(t.subrange(0, t.len() as int) =~= t);
            assert(t.subrange(0, 0) =~= Seq::<char>::empty());
            assert(path_components_spec(Seq::<char>::empty()) =~= Seq::<Seq<char>>::empty());
        } else {
            assert(t.subrange(0, 0) =~= t);
            assert(path_components_spec(t) + Seq::<Seq<char>>::empty() =~= path_components_spec(t));
        }
    } else {
        let pre = t.subrange(0, start);
        assert(pre.last() == '/');
        assert(last_slash(pre) == start - 1);
        assert(last_slash(t) == start - 1);
        lemma_components_slash_end(pre);
        assert(pre.drop_last() =~= t.subrange(0, start - 1));
        if start == t.len() {
            assert(pre =~= t);
            assert(path_components_spec(t) + Seq::<Seq<char>>::empty() =~= path_components_spec(t));
        } else {
            assert(t.len() > 0);
        }
    }
}

/// The non-empty components of `path`, the directories to open one by one.
pub fn path_components(path: &str) -> (r: Vec<String>)
    ensures
        r@.map_values(|c: String| c@) == path_components_spec(path@),
{
    let n = path.unicode_len();
    let mut out: Vec<String> = Vec::new();
    let mut start: usize = 0;
    let mut i: usize = 0;
    while i < n
        invariant
            n == path@.len(),
            start <= i <= n,
            start == 0 || path@[start - 1] == '/',
            forall|k: int| start <= k < i ==> path@[k] != '/',
            out@.map_values(|c: String| c@) == path_components_spec(path@.subrange(0, start as int)),
        decreases n - i,
    {
        let c = path.get_char(i);
        if c == '/' {
            let ghost t = path@.subrange(0, i as int);
            proof {
                lemma_components_tail(t, start as int);
                assert(t.subrange(0, start as int) =~= path@.subrange(0, start as int));
                assert(path@.subrange(0, i + 1).drop_last() =~= t);
                lemma_components_slash_end(path@.subrange(0, i + 1));
            }
            if i > start {
                let seg = String::from_str(path.substring_char(start, i));
                let ghost old_out = out@;
                out.push(seg);
                proof {
                    assert(t.subrange(start as int, t.len() as int) =~= path@.subrange(start as int, i as int));
                    assert(out@.map_values(|c: String| c@) =~= old_out.map_values(|c: String| c@).push(seg@));
                }
            } else {
                proof {
                    assert(path_components_spec(t) =~= path_components_spec(t.subrange(0, start as int)) + Seq::<Seq<char>>::empty());
                }
            }
            start = i + 1;
        }
        i = i + 1;
    }
    proof {
        lemma_components_tail(path@, start as int);
        assert(path@.subrange(0, n as int) =~= path@);
    }
    if n > start {
        let seg = String::from_str(path.substring_char(start, n));
        let ghost old_out = out@;
        out.push(seg);
        proof {
            assert(out@.map_values(|c: String| c@) =~= old_out.map_values(|c: String| c@).push(seg@));
        }
    } else {
        proof {
            assert(path_components_spec(path@) =~= path_components_spec(path@.subrange(0, start as int)) + Seq::<Seq<char>>::empty());
        }
    }
    out
}

// =============================================================================
// Listing order
// =============================================================================

/// Strict lexicographic order of texts, character by character (by code
/// point); a proper prefix comes first. For UTF-8 text this is the order of
/// `String`'s `cmp`.
pub open spec fn text_lt(a: Seq<char>, b: Seq<char>) -> bool
    decreases a.len(),
{
    if a.len() == 0 {
        b.len() > 0
    } else if b.len() == 0 {
        false
    } else if (a[0] as u32) < (b[0] as u32) {
        true
    } else if (a[0] as u32) > (b[0] as u32) {
        false
    } else {
        text_lt(a.drop_first(), b.drop_first())
    }
}

/// Whether entry `a` is listed strictly before entry `b`: directories come
/// before files, and within each group names are in ascending order.
pub open spec fn entry_before(a: DirEntryInfo, b: DirEntryInfo) -> bool {
    ||| (a.is_dir && !b.is_dir)
    ||| (a.is_dir == b.is_dir && text_lt(a.name@, b.name@))
}

/// A listing in browsing order: no entry is listed before an earlier one.
pub open spec fn entries_sorted(s: Seq<DirEntryInfo>) -> bool {
    forall|i: int, j: int| 0 <= i < j < s.len() ==> !entry_before(#[trigger] s[j], #[trigger] s[i])
}

/// Whether two entries sort alike: same kind, same name.
pub open spec fn same_key(a: DirEntryInfo, b: DirEntryInfo) -> bool {
    a.is_dir == b.is_dir && a.name@ == b.name@
}

/// The entries of `s` that sort alike to `k`, in their order in `s`.
pub open spec fn alike(s: Seq<DirEntryInfo>, k: DirEntryInfo) -> Seq<DirEntryInfo> {
    s.filter(|e: DirEntryInfo| same_key(e, k))
}

pub proof fn lemma_text_lt_irreflexive(a: Seq<char>)
    ensures
        !text_lt(a, a),
    decreases a.len(),
{
    if a.len() > 0 {
        lemma_text_lt_irreflexive(a.drop_first());
    }
}

pub proof fn lemma_text_lt_transitive(a: Seq<char>, b: Seq<char>, c: Seq<char>)
    requires
        text_lt(a, b),
        text_lt(b, c),
    ensures
        text_lt(a, c),
    decreases a.len(),
{
    if a.len() > 0 && b.len() > 0 && c.len() > 0 {
        if a[0] as u32 == b[0] as u32 && b[0] as u32 == c[0] as u32 {
            lemma_text_lt_transitive(a.drop_first(), b.drop_first(), c.drop_first());
        }
    }
}

pub proof fn lemma_entry_before_irreflexive(a: DirEntryInfo)
    ensures
        !entry_before(a, a),
{
    lemma_text_lt_irreflexive(a.name@);
}

pub proof fn lemma_entry_before_transitive(a: DirEntryInfo, b: DirEntryInfo, c: DirEntryInfo)
    requires
        entry_before(a, b),
        entry_before(b, c),
    ensures
        entry_before(a, c),
{
    if a.is_dir == b.is_dir && b.is_dir == c.is_dir {
        lemma_text_lt_transitive(a.name@, b.name@, c.name@);
    }
}

/// Law: names are in lexicographic order by code point. Two names that
/// agree up to some position, where the first has a smaller character,
/// compare that way, whatever follows; for example `"a1"` before `"a2"`.
pub proof fn law_names_lexicographic(p: Seq<char>, x: char, y: char, s: Seq<char>, t: Seq<char>)
    requires
        (x as u32) < (y as u32),
    ensures
        text_lt(p + seq![x] + s, p + seq![y] + t),
        !text_lt(p + seq![y] + t, p + seq![x] + s),
    decreases p.len(),
{
    let a = p + seq![x] + s;
    let b = p + seq![y] + t;
    if p.len() == 0 {
        assert(a[0] == x);
        assert(b[0] == y);
    } else {
        law_names_lexicographic(p.drop_first(), x, y, s, t);
        assert(a[0] == p[0] && b[0] == p[0]);
        assert(a.drop_first() =~= p.drop_first() + seq![x] + s);
        assert(b.drop_first() =~= p.drop_first() + seq![y] + t);
    }
}

/// Law: a name comes before every longer name that it begins.
pub proof fn law_prefix_first(p: Seq<char>, q: Seq<char>)
    requires
        q.len() > 0,
    ensures
        text_lt(p, p + q),
        !text_lt(p + q, p),
    decreases p.len(),
{
    if p.len() > 0 {
        law_prefix_first(p.drop_first(), q);
        assert((p + q)[0] == p[0]);
        assert((p + q).drop_first() =~= p.drop_first() + q);
    } else {
        assert(p + q =~= q);
    }
}

/// Law: in a listing in browsing order every directory comes before every
/// file, and of two entries of the same kind the one whose name is smaller
/// comes first.
pub proof fn law_sorted_listing_order(s: Seq<DirEntryInfo>, i: int, j: int)
    requires
        entries_sorted(s),
        0 <= i < s.len(),
        0 <= j < s.len(),
        (s[i].is_dir && !s[j].is_dir) || (s[i].is_dir == s[j].is_dir && text_lt(
            s[i].name@,
            s[j].name@,
        )),
    ensures
        i < j,
{
    if j < i {
        assert(!entry_before(s[i], s[j]));
    } else if i == j {
        lemma_text_lt_irreflexive(s[i].name@);
    }
}

/// `a < b` in the listing order of names.
fn text_lt_exec(a: &str, b: &str) -> (r: bool)
    ensures
        r == text_lt(a@, b@),
{
    let la = a.unicode_len();
    let lb = b.unicode_len();
    let mut i: usize = 0;
    assert(a@.skip(0) =~= a@);
    assert(b@.skip(0) =~= b@);
    while i < la && i < lb
        invariant
            la == a@.len(),
            lb == b@.len(),
            i <= la,
            i <= lb,
            text_lt(a@, b@) == text_lt(a@.skip(i as int), b@.skip(i as int)),
        decreases la - i,
    {
        let ca = a.get_char(i);
        let cb = b.get_char(i);
        let xa = ca as u32;
        let xb = cb as u32;
        assert(a@.skip(i as int)[0] == ca);
        assert(b@.skip(i as int)[0] == cb);
        if xa != xb {
            return xa < xb;
        }
        assert(a@.skip(i as int).drop_first() =~= a@.skip(i + 1));
        assert(b@.skip(i as int).drop_first() =~= b@.skip(i + 1));
        i = i + 1;
    }
    la - i == 0 && lb - i > 0
}

/// Whether `a` is listed strictly before `b`.
fn entry_before_exec(a: &DirEntryInfo, b: &DirEntryInfo) -> (r: bool)
    ensures
        r == entry_before(*a, *b),
{
    if a.is_dir != b.is_dir {
        a.is_dir
    } else {
        text_lt_exec(a.name.as_str(), b.name.as_str())
    }
}

/// When `x` goes in at `p` of a sorted `before`, ahead of the first entry
/// it sorts before, the entries that sort alike to any `k` keep their order
/// and `x` comes after those alike to it.
proof fn lemma_insert_keeps_alike(before: Seq<DirEntryInfo>, p: int, x: DirEntryInfo, k: DirEntryInfo)
    requires
        0 <= p <= before.len(),
        entries_sorted(before),
        p < before.len() ==> entry_before(x, before[p]),
    ensures
        alike(before.insert(p, x), k) == if same_key(x, k) {
            alike(before, k).push(x)
        } else {
            alike(before, k)
        },
{
    broadcast use Seq::filter_distributes_over_add;

    let pred = |e: DirEntryInfo| same_key(e, k);
    let front = before.subrange(0, p);
    let back = before.subrange(p, before.len() as int);
    assert(before.insert(p, x) =~= front + seq![x] + back);
    assert(before =~= front + back);
    reveal(Seq::filter);
    assert(seq![x].drop_last() =~= Seq::<DirEntryInfo>::empty());
    if same_key(x, k) {
        assert forall|q: int| 0 <= q < back.len() implies !pred(back[q]) by {
            let e = back[q];
            assert(e == before[p + q]);
            if same_key(e, k) {
                if q == 0 {
                    lemma_entry_before_irreflexive(before[p]);
                } else {
                    assert(!entry_before(before[p + q], before[p]));
                }
            }
        }
        assert(back.all(|e: DirEntryInfo| !pred(e)));
        back.lemma_all_neg_filter_empty(pred);
        assert(back.filter(pred) =~= Seq::<DirEntryInfo>::empty());
        assert(seq![x].filter(pred) =~= seq![x]);
        assert(front.filter(pred) + seq![x] + back.filter(pred) =~= (front.filter(pred)
            + back.filter(pred)).push(x));
    } else {
        assert(seq![x].last() == x && !pred(x));
        assert(Seq::<DirEntryInfo>::empty().filter(pred) =~= Seq::<DirEntryInfo>::empty());
        assert(seq![x].filter(pred) =~= Seq::<DirEntryInfo>::empty());
        assert(front.filter(pred) + seq![x].filter(pred) =~= front.filter(pred));
    }
}

/// Puts a listing in browsing order (directories first, then files, each
/// group by name), keeping the entries themselves; entries that sort alike
/// keep their order (the sort is stable).
pub fn sort_entries(entries: Vec<DirEntryInfo>) -> (r: Vec<DirEntryInfo>)
    ensures
        r@.to_multiset() == entries@.to_multiset(),
        entries_sorted(r@),
        forall|k: DirEntryInfo| #[trigger] alike(r@, k) == alike(entries@, k),
{
    let ghost input = entries@;
    let mut rest = entries;
    let mut out: Vec<DirEntryInfo> = Vec::new();
    let ghost mut k: int = 0;
    assert(input.take(0) =~= Seq::<DirEntryInfo>::empty());
    assert(input.skip(0) =~= input);
    while rest.len() > 0
        invariant
            0 <= k <= input.len(),
            rest@ == input.skip(k),
            out@.to_multiset() == input.take(k).to_multiset(),
            entries_sorted(out@),
            forall|key: DirEntryInfo| #[trigger] alike(out@, key) == alike(input.take(k), key),
        decreases rest.len(),
    {
        let x = rest.remove(0);
        proof {
            assert(input.take(k + 1) =~= input.take(k).push(x));
            assert(input.skip(k + 1) =~= input.skip(k).remove(0));
        }
        let mut p: usize = 0;
        while p < out.len() && !entry_before_exec(&x, &out[p])
            invariant
                p <= out.len(),
                forall|j: int| 0 <= j < p ==> !entry_before(x, #[trigger] out@[j]),
            decreases out.len() - p,
        {
            p = p + 1;
        }
        let ghost before = out@;
        out.insert(p, x);
        proof {
            assert forall|key: DirEntryInfo| #[trigger] alike(out@, key) == alike(
                input.take(k + 1),
                key,
            ) by {
                lemma_insert_keeps_alike(before, p as int, x, key);
                input.take(k).lemma_filter_push(x, |e: DirEntryInfo| same_key(e, key));
            }
            assert(out@ == before.insert(p as int, x));
            vstd::seq_lib::to_multiset_insert(before, p as int, x);
            input.take(k).to_multiset_ensures();
            assert(out@.to_multiset() == before.to_multiset().insert(x));
            assert(input.take(k + 1).to_multiset() == input.take(k).to_multiset().insert(x));
            assert forall|i: int, j: int| 0 <= i < j < out@.len() implies !entry_before(
                #[trigger] out@[j],
                #[trigger] out@[i],
            ) by {
                if i < p && j == p {
                } else if i < p && j > p {
                    assert(out@[i] == before[i] && out@[j] == before[j - 1]);
                } else if i == p {
                    assert(out@[j] == before[j - 1]);
                    assert(p < before.len());
                    assert(entry_before(x, before[p as int]));
                    if j - 1 == p {
                        if entry_before(before[p as int], x) {
                            lemma_entry_before_transitive(x, before[p as int], x);
                            lemma_entry_before_irreflexive(x);
                        }
                    } else {
                        assert(!entry_before(before[j - 1], before[p as int]));
                        if entry_before(before[j - 1], x) {
                            lemma_entry_before_transitive(before[j - 1], x, before[p as int]);
                        }
                    }
                } else if j < p {
                    assert(out@[i] == before[i] && out@[j] == before[j]);
                } else {
                    assert(out@[i] == before[i - 1] && out@[j] == before[j - 1]);
                }
            }
            k = k + 1;
        }
    }
    proof {
        assert(input.take(k) =~= input);
    }
    out
}

// =============================================================================
// Human-readable sizes
// =============================================================================

/// Appends a character to a string: `String::push`.
#[verifier::external_body]
fn push_char(s: &mut String, c: char)
    ensures
        final(s)@ == old(s)@.push(c),
{
    s.push(c)
}

/// The decimal digit `d` (0..=9) as a character.
pub open spec fn digit_char(d: nat) -> char {
    ((d + 48) as u8) as char
}

/// The decimal notation of `n`, without leading zeros.
pub open spec fn decimal_text(n: nat) -> Seq<char>
    decreases n,
{
    if n < 10 {
        seq![digit_char(n)]
    } else {
        decimal_text(n / 10).push(digit_char(n % 10))
    }
}

/// `n / d` rounded to the nearest integer, ties to even.
pub open spec fn div_round_half_even(n: nat, d: nat) -> nat
    recommends
        d > 0,
{
    let q = n / d;
    let r = n % d;
    if 2 * r > d || (2 * r == d && q % 2 == 1) {
        q + 1
    } else {
        q
    }
}

/// `2` to the power `k`.
pub open spec fn two_pow(k: nat) -> nat
    decreases k,
{
    if k == 0 {
        1
    } else {
        2 * two_pow((k - 1) as nat)
    }
}

/// How many low bits of `n` a 24-bit significand cannot hold.
pub open spec fn f32_dropped_bits(n: nat) -> nat
    decreases n,
{
    if n < 0x100_0000 {
        0
    } else {
        1 + f32_dropped_bits(n / 2)
    }
}

/// The value of `n as f32`: `n` rounded to 24 significant bits, ties to even.
pub open spec fn f32_value(n: nat) -> nat {
    let unit = two_pow(f32_dropped_bits(n));
    div_round_half_even(n, unit) * unit
}

/// A count of tenths written with one decimal: `t / 10 "." t % 10`.
pub open spec fn tenths_text(t: nat) -> Seq<char> {
    decimal_text(t / 10) + seq!['.'] + decimal_text(t % 10)
}

/// The text of a file size: whole bytes below 1 KiB, else KiB below 1 MiB,
/// else MiB, with one decimal, as `{:.1}` prints the `f32` quotient.
pub open spec fn format_size_spec(size: nat) -> Seq<char> {
    if size < 1024 {
        decimal_text(size).push('B')
    } else if size < 1048576 {
        tenths_text(div_round_half_even(size * 10, 1024)).push('K')
    } else {
        tenths_text(div_round_half_even(f32_value(size) * 10, 1048576)).push('M')
    }
}

fn digit(d: u64) -> (c: char)
    requires
        d < 10,
    ensures
        c == digit_char(d as nat),
{
    let b: u8 = (d as u8) + 48;
    b as char
}

/// Appends the decimal notation of `n`.
pub(crate) fn push_decimal(s: &mut String, n: u64)
    ensures
        final(s)@ == old(s)@ + decimal_text(n as nat),
    decreases n,
{
    if n >= 10 {
        push_decimal(s, n / 10);
    }
    let c = digit(n % 10);
    push_char(s, c);
    proof {
        if n >= 10 {
            assert(final(s)@ =~= old(s)@ + decimal_text(n as nat));
        } else {
            assert(final(s)@ =~= old(s)@ + decimal_text(n as nat));
        }
    }
}

fn div_round_half_even_exec(n: u64, d: u64) -> (r: u64)
    requires
        0 < d <= 0x1_0000_0000,
        n <= 0x100_0000_0000_0000,
    ensures
        r == div_round_half_even(n as nat, d as nat),
{
    let q = n / d;
    let r = n % d;
    if 2 * r > d || (2 * r == d && q % 2 == 1) {
        q + 1
    } else {
        q
    }
}

/// The value of `n as f32`, computed with integers.
fn f32_value_exec(n: u32) -> (r: u64)
    ensures
        r == f32_value(n as nat),
        r <= 2 * (n as nat),
{
    let mut m: u64 = n as u64;
    let mut unit: u64 = 1;
    let ghost mut k: nat = 0;
    while m >= 0x100_0000
        invariant
            unit == two_pow(k),
            0 < unit,
            unit == 1 || unit <= n,
            m == (n as nat) / (unit as nat),
            f32_dropped_bits(n as nat) == k + f32_dropped_bits(m as nat),
            n as nat >= 0x100_0000 || k == 0,
        decreases m,
    {
        proof {
            vstd::arithmetic::div_mod::lemma_div_denominator(n as int, unit as int, 2);
            vstd::arithmetic::div_mod::lemma_fundamental_div_mod(n as int, 2 * unit as int);
            assert((n as nat) / (2 * unit as nat) >= 1);
            assert(2 * unit <= n) by (nonlinear_arith)
                requires
                    (n as nat) / (2 * unit as nat) >= 1,
                    n as int == (2 * unit as int) * ((n as int) / (2 * unit as int)) + (n as int) % (2 * unit as int),
                    (n as int) % (2 * unit as int) >= 0,
            ;
        }
        m = m / 2;
        unit = unit * 2;
        proof {
            k = k + 1;
        }
    }
    let q = div_round_half_even_exec(n as u64, unit);
    proof {
        vstd::arithmetic::div_mod::lemma_fundamental_div_mod(n as int, unit as int);
    }
    if unit == 1 {
        assert(q * unit == q) by (nonlinear_arith)
            requires
                unit == 1,
        ;
        return q;
    }
    proof {
        assert(q * unit <= 2 * n) by (nonlinear_arith)
            requires
                q <= (n as int) / (unit as int) + 1,
                n as int == (unit as int) * ((n as int) / (unit as int)) + (n as int) % (unit as int),
                (n as int) % (unit as int) >= 0,
                unit <= n,
                unit > 0,
        ;
    }
    q * unit
}

/// Formats a file size for display: `"512B"`, `"1.5K"`, `"2.0M"`.
pub fn format_size(size: u32) -> (r: String)
    ensures
        r@ == format_size_spec(size as nat),
{
    let mut s = String::new();
    if size < 1024 {
        push_decimal(&mut s, size as u64);
        push_char(&mut s, 'B');
    } else {
        let t: u64;
        let unit: char;
        if size < 1048576 {
            t = div_round_half_even_exec(size as u64 * 10, 1024);
            unit = 'K';
        } else {
            let v = f32_value_exec(size);
            t = div_round_half_even_exec(v * 10, 1048576);
            unit = 'M';
        }
        push_decimal(&mut s, t / 10);
        push_char(&mut s, '.');
        push_decimal(&mut s, t % 10);
        push_char(&mut s, unit);
    }
    proof {
        assert(s@ =~= format_size_spec(size as nat));
    }
    s
}


// =============================================================================
// File-system interface
// =============================================================================

/// A directory listing as mathematical values.
pub open spec fn listing_view(listing: Result<Vec<DirEntryInfo>, SdError>) -> Result<
    Seq<DirEntryInfo>,
    SdError,
> {
    match listing {
        Ok(v) => Ok(v@),
        Err(e) => Err(e),
    }
}

/// A file read as mathematical values.
pub open spec fn bytes_view(read: Result<Vec<u8>, SdError>) -> Result<Seq<u8>, SdError> {
    match read {
        Ok(v) => Ok(v@),
        Err(e) => Err(e),
    }
}

/// `r` is the text of the bytes of `read`: the read's error, its bytes
/// decoded when they are UTF-8, else `ReadError`.
pub open spec fn text_of_read(read: Result<Seq<u8>, SdError>, r: Result<String, SdError>) -> bool {
    match read {
        Err(e) => r == Err::<String, SdError>(e),
        Ok(b) => if valid_utf8(b) {
            r matches Ok(t) && t@ == decode_utf8(b)
        } else {
            r == Err::<String, SdError>(SdError::ReadError)
        },
    }
}

/// A path as mathematical text.
pub type PathText = Seq<char>;

/// File contents as mathematical bytes.
pub type ByteText = Seq<u8>;

/// What listing a directory gives, as mathematical values.
pub type ListingModel = Result<Seq<DirEntryInfo>, SdError>;

/// What reading a file gives, as mathematical values.
pub type ReadModel = Result<Seq<u8>, SdError>;

/// File-system access for the user interface and other modules. The firmware
/// implements it over the SD card. Each query is answered as the file system
/// stands when it is asked: an implementation gives the answers that its
/// `dir_listing`, `file_contents`, `write_outcome` and `has_file` describe.
pub trait FileSystem {
    /// What listing the directory at `path` gives.
    spec fn dir_listing(&self, path: PathText) -> ListingModel;

    /// What reading the file at `path` gives.
    spec fn file_contents(&self, path: PathText) -> ReadModel;

    /// What writing `data` to the file at `path` reports.
    spec fn write_outcome(&self, path: PathText, data: ByteText) -> Result<(), SdError>;

    /// Whether a file exists at `path`.
    spec fn has_file(&self, path: PathText) -> bool;

    /// Lists the entries of the directory at `path`.
    fn list_dir(&mut self, path: &str) -> (r: Result<Vec<DirEntryInfo>, SdError>)
        ensures
            listing_view(r) == old(self).dir_listing(path@),
    ;

    /// Reads a whole file.
    fn read_file(&mut self, path: &str) -> (r: Result<Vec<u8>, SdError>)
        ensures
            bytes_view(r) == old(self).file_contents(path@),
    ;

    /// Reads a whole file as UTF-8 text.
    fn read_file_to_string(&mut self, path: &str) -> (r: Result<String, SdError>)
        ensures
            text_of_read(old(self).file_contents(path@), r),
    {
        let bytes = self.read_file(path);
        bytes_to_string(bytes)
    }

    /// Writes a file, replacing an existing one.
    fn write_file(&mut self, path: &str, data: &[u8]) -> (r: Result<(), SdError>)
        ensures
            r == old(self).write_outcome(path@, data@),
    ;

    /// Whether a file exists at `path`.
    fn file_exists(&mut self, path: &str) -> (r: bool)
        ensures
            r == old(self).has_file(path@),
    ;
}

/// Turns bytes into a `String` when they are valid UTF-8: `String::from_utf8`.
#[verifier::external_body]
fn string_from_utf8(bytes: Vec<u8>) -> (r: Option<String>)
    ensures
        r is Some <==> valid_utf8(bytes@),
        r matches Some(s) ==> s@ == decode_utf8(bytes@),
{
    String::from_utf8(bytes).ok()
}

/// The text of the bytes that a read gave, or the read's error; bytes that
/// are not UTF-8 give `ReadError`.
pub fn bytes_to_string(read: Result<Vec<u8>, SdError>) -> (r: Result<String, SdError>)
    ensures
        text_of_read(bytes_view(read), r),
{
    match read {
        Ok(bytes) => match string_from_utf8(bytes) {
            Some(s) => Ok(s),
            None => Err(SdError::ReadError),
        },
        Err(e) => Err(e),
    }
}

/// Installs the file system in `slot`.
pub fn init_fs<F: FileSystem>(slot: &mut Option<F>, fs: F)
    ensures
        *final(slot) == Some(fs),
{
    *slot = Some(fs);
}

/// What listing `path` gives in the installed file system: `NotInitialized`
/// when none is installed.
pub open spec fn fs_listing<F: FileSystem>(fs: Option<F>, path: Seq<char>) -> Result<
    Seq<DirEntryInfo>,
    SdError,
> {
    match fs {
        Some(f) => f.dir_listing(path),
        None => Err(SdError::NotInitialized),
    }
}

/// Lists the directory at `path` in the installed file system: its answer,
/// or `NotInitialized` when none is installed.
pub fn list_directory<F: FileSystem>(fs: &mut Option<F>, path: &str) -> (r: Result<
    Vec<DirEntryInfo>,
    SdError,
>)
    ensures
        listing_view(r) == fs_listing(*old(fs), path@),
        *old(fs) is None ==> *final(fs) is None,
        *old(fs) is Some ==> *final(fs) is Some,
{
    match fs {
        Some(f) => f.list_dir(path),
        None => Err(SdError::NotInitialized),
    }
}

/// Reads a whole file from the installed file system: its answer, or
/// `NotInitialized` when none is installed.
pub fn read_file<F: FileSystem>(fs: &mut Option<F>, path: &str) -> (r: Result<Vec<u8>, SdError>)
    ensures
        *old(fs) matches Some(f) ==> bytes_view(r) == f.file_contents(path@),
        *old(fs) is None ==> r == Err::<Vec<u8>, SdError>(SdError::NotInitialized) && *final(fs) is None,
        *old(fs) is Some ==> *final(fs) is Some,
{
    match fs {
        Some(f) => f.read_file(path),
        None => Err(SdError::NotInitialized),
    }
}

/// Reads a whole file as text from the installed file system: the text of
/// its bytes (`ReadError` when they are not UTF-8), or `NotInitialized` when
/// none is installed.
pub fn read_file_to_string<F: FileSystem>(fs: &mut Option<F>, path: &str) -> (r: Result<
    String,
    SdError,
>)
    ensures
        *old(fs) matches Some(f) ==> text_of_read(f.file_contents(path@), r),
        *old(fs) is None ==> r == Err::<String, SdError>(SdError::NotInitialized) && *final(fs) is None,
        *old(fs) is Some ==> *final(fs) is Some,
{
    match fs {
        Some(f) => f.read_file_to_string(path),
        None => Err(SdError::NotInitialized),
    }
}

/// Writes a file to the installed file system: its report, or
/// `NotInitialized` when none is installed.
pub fn write_file<F: FileSystem>(fs: &mut Option<F>, path: &str, data: &[u8]) -> (r: Result<
    (),
    SdError,
>)
    ensures
        *old(fs) matches Some(f) ==> r == f.write_outcome(path@, data@),
        *old(fs) is None ==> r == Err::<(), SdError>(SdError::NotInitialized) && *final(fs) is None,
        *old(fs) is Some ==> *final(fs) is Some,
{
    match fs {
        Some(f) => f.write_file(path, data),
        None => Err(SdError::NotInitialized),
    }
}

/// Whether a file exists in the installed file system; `false` when none is
/// installed.
pub fn file_exists<F: FileSystem>(fs: &mut Option<F>, path: &str) -> (r: bool)
    ensures
        *old(fs) matches Some(f) ==> r == f.has_file(path@),
        *old(fs) is None ==> !r && *final(fs) is None,
        *old(fs) is Some ==> *final(fs) is Some,
{
    match fs {
        Some(f) => f.file_exists(path),
        None => false,
    }
}

// =============================================================================
// Directory entries and short names
// =============================================================================

/// The listing entry for a raw directory record, or `None` for the `.` and
/// `..` records; the long name is shown when there is one, else the short one.
pub fn dir_entry_from_raw(long_name: Option<String>, short_name: String, is_dir: bool, size: u32) -> (r:
    Option<DirEntryInfo>)
    ensures
        (short_name@ == "."@ || short_name@ == ".."@) <==> r is None,
        r matches Some(e) ==> {
            &&& e.short_name == short_name
            &&& e.is_dir == is_dir
            &&& e.size == size
            &&& e.name@ == match long_name {
                Some(l) => l@,
                None => short_name@,
            }
        },
{
    let dot = String::from_str(".");
    let dotdot = String::from_str("..");
    if short_name == dot || short_name == dotdot {
        return None;
    }
    let name = match long_name {
        Some(l) => l,
        None => short_name.clone(),
    };
    Some(DirEntryInfo { name, short_name, is_dir, size })
}

/// An 8.3 short name as a directory record holds it: the base name and the
/// extension, each without its padding spaces.
#[derive(Debug)]
pub struct ShortName {
    /// The base name's bytes.
    pub base: Vec<u8>,
    /// The extension's bytes (empty when there is none).
    pub ext: Vec<u8>,
}

/// The text of an 8.3 name from its base and extension bytes: `BASE.EXT`, or
/// `BASE` without extension; a base that is not UTF-8 reads `???`, an
/// extension that is not UTF-8 is left out.
pub open spec fn short_name_text(base: Seq<u8>, ext: Seq<u8>) -> Seq<char> {
    let b = if valid_utf8(base) {
        decode_utf8(base)
    } else {
        "???"@
    };
    let e = if valid_utf8(ext) {
        decode_utf8(ext)
    } else {
        Seq::empty()
    };
    if e.len() == 0 {
        b
    } else {
        b + seq!['.'] + e
    }
}

/// Builds the readable text of an 8.3 name from its base and extension bytes.
pub fn short_name_from_parts(base: &[u8], ext: &[u8]) -> (r: String)
    ensures
        r@ == short_name_text(base@, ext@),
{
    let mut b = match string_from_utf8(slice_to_vec(base)) {
        Some(s) => s,
        None => String::from_str("???"),
    };
    let e = match string_from_utf8(slice_to_vec(ext)) {
        Some(s) => s,
        None => String::new(),
    };
    if e.as_str().unicode_len() == 0 {
        b
    } else {
        b.append(".");
        b.append(e.as_str());
        proof {
            reveal_strlit(".");
        }
        b
    }
}

/// Converts a short file name of the card into readable text.
pub fn short_name_to_string(name: &ShortName) -> (r: String)
    ensures
        r@ == short_name_text(name.base@, name.ext@),
{
    short_name_from_parts(name.base.as_slice(), name.ext.as_slice())
}

/// A file-system timestamp (same fields as the card library's).
#[derive(Debug, Clone, Copy, PartialEq, Eq, Structural)]
pub struct Timestamp {
    /// Years since 1970.
    pub year_since_1970: u8,
    /// Month, counted from 0.
    pub zero_indexed_month: u8,
    /// Day of the month, counted from 0.
    pub zero_indexed_day: u8,
    /// Hours past midnight.
    pub hours: u8,
    /// Minutes past the hour.
    pub minutes: u8,
    /// Seconds past the minute.
    pub seconds: u8,
}

/// A time source without a clock: every file gets the same fixed time.
#[derive(Debug, Clone, Copy)]
pub struct DummyTimeSource;

impl DummyTimeSource {
    /// The fixed timestamp: all fields zero.
    pub fn get_timestamp(&self) -> (t: Timestamp)
        ensures
            t == (Timestamp {
                year_since_1970: 0,
                zero_indexed_month: 0,
                zero_indexed_day: 0,
                hours: 0,
                minutes: 0,
                seconds: 0,
            }),
    {
        Timestamp {
            year_since_1970: 0,
            zero_indexed_month: 0,
            zero_indexed_day: 0,
            hours: 0,
            minutes: 0,
            seconds: 0,
        }
    }
}

} // verus!
