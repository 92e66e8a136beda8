//! Remote file browsing: directory entries, transfer progress, remote path
//! arithmetic and the order in which a directory listing is shown.

use vstd::prelude::*;
use crate::text::{
    clone_opt_string,
    chars_of, decimal, decimal_string, last_slash, last_slash_before, leading_slashes, octal,
    octal_string_3, string_from_range, trim_end_slashes, trim_end_slashes_len, trim_start_slashes,
    zero_padded,
};

verus! {

/// A remote directory entry.
#[derive(Debug)]
pub struct FileEntry {
    pub name: String,
    pub path: String,
    pub is_dir: bool,
    pub size: u64,
    pub modified: Option<String>,
    pub permissions: Option<String>,
}


impl Clone for FileEntry {
    fn clone(&self) -> (r: Self)
        ensures
            r == *self,
    {
        FileEntry {
            name: self.name.clone(),
            path: self.path.clone(),
            is_dir: self.is_dir,
            size: self.size,
            modified: clone_opt_string(&self.modified),
            permissions: clone_opt_string(&self.permissions),
        }
    }
}

/// Progress of a file transfer.
#[derive(Debug)]
pub enum TransferEvent {
    Started { file: String, total: u64, is_upload: bool },
    Progress { file: String, transferred: u64, total: u64 },
    Completed { file: String },
    Error { file: String, error: String },
}

/// The transfer in progress.
#[derive(Debug)]
pub struct TransferState {
    pub file: String,
    pub transferred: u64,
    pub total: u64,
    pub is_upload: bool,
}

/// The root directory, `/`.
pub open spec fn root_path() -> Seq<char> {
    seq!['/']
}

/// A name inside a remote directory: `/name` under the root, else the
/// directory without trailing slashes, `/`, and the name without leading
/// slashes.
pub open spec fn joined_remote(parent: Seq<char>, name: Seq<char>) -> Seq<char> {
    if parent == root_path() {
        root_path() + trim_start_slashes(name)
    } else {
        trim_end_slashes(parent) + root_path() + trim_start_slashes(name)
    }
}

/// The directory holding a remote path; `/` for top-level paths and for
/// paths without a slash.
pub open spec fn remote_parent_of(path: Seq<char>) -> Seq<char> {
    let t = trim_end_slashes(path);
    match last_slash(t) {
        None => root_path(),
        Some(i) => if i == 0 { root_path() } else { t.subrange(0, i as int) },
    }
}

/// The parent of a directory, if it has one: none for the root (or an empty
/// path) and for a path without a slash.
pub open spec fn parent_dir_of(path: Seq<char>) -> Option<Seq<char>> {
    let t = trim_end_slashes(path);
    if t.len() == 0 {
        None
    } else {
        match last_slash(t) {
            None => None,
            Some(i) => if i == 0 { Some(root_path()) } else { Some(t.subrange(0, i as int)) },
        }
    }
}

/// The path of the entry `name` listed in directory `dir`.
pub open spec fn listed_path(dir: Seq<char>, name: Seq<char>) -> Seq<char> {
    trim_end_slashes(dir) + root_path() + name
}

/// Joins a name onto a remote directory.
pub fn join_remote_path(parent: &str, name: &str) -> (r: String)
    ensures
        r@ == joined_remote(parent@, name@),
{
    let p = chars_of(parent);
    let n = chars_of(name);
    let lead = leading_slashes(&n);
    let tail = string_from_range(&n, lead, n.len());
    proof {
        reveal_strlit("/");
    }
    if p.len() == 1 && p[0] == '/' {
        assert(p@ =~= root_path());
        let mut r = String::from_str("/");
        r.append(tail.as_str());
        r
    } else {
        assert(parent@ != root_path()) by {
            if parent@ == root_path() {
                assert(p@.len() == 1 && p@[0] == '/');
            }
        }
        let end = trim_end_slashes_len(&p);
        let mut r = string_from_range(&p, 0, end);
        r.append("/");
        r.append(tail.as_str());
        r
    }
}

/// The directory holding a remote path.
pub fn remote_parent(path: &str) -> (r: String)
    ensures
        r@ == remote_parent_of(path@),
{
    let p = chars_of(path);
    let end = trim_end_slashes_len(&p);
    let ghost t = p@.subrange(0, end as int);
    proof {
        reveal_strlit("/");
    }
    match last_slash_before(&p, end) {
        None => String::from_str("/"),
        Some(i) => {
            if i == 0 {
                String::from_str("/")
            } else {
                assert(t.subrange(0, i as int) =~= p@.subrange(0, i as int));
                string_from_range(&p, 0, i)
            }
        },
    }
}

/// The parent of a remote directory, if it has one.
pub fn parent_dir(path: &str) -> (r: Option<String>)
    ensures
        r matches Some(s) ==> parent_dir_of(path@) == Some(s@),
        r is None ==> parent_dir_of(path@) is None,
{
    let p = chars_of(path);
    let end = trim_end_slashes_len(&p);
    let ghost t = p@.subrange(0, end as int);
    proof {
        reveal_strlit("/");
    }
    if end == 0 {
        return None;
    }
    match last_slash_before(&p, end) {
        None => None,
        Some(i) => {
            if i == 0 {
                Some(String::from_str("/"))
            } else {
                assert(t.subrange(0, i as int) =~= p@.subrange(0, i as int));
                Some(string_from_range(&p, 0, i))
            }
        },
    }
}

/// Whether `name` is a single path component: non-empty, without `/`.
pub open spec fn is_component(name: Seq<char>) -> bool {
    name.len() > 0 && forall|i: int| 0 <= i < name.len() ==> #[trigger] name[i] != '/'
}

/// Whether `dir` is a directory path as the browser keeps it: the root, or
/// a non-empty path without a trailing `/`.
pub open spec fn is_clean_dir(dir: Seq<char>) -> bool {
    dir == root_path() || (dir.len() > 0 && dir.last() != '/')
}

proof fn lemma_last_slash_component(a: Seq<char>, b: Seq<char>)
    requires
        forall|i: int| 0 <= i < b.len() ==> #[trigger] b[i] != '/',
    ensures
        last_slash(a + b) == last_slash(a),
    decreases b.len(),
{
    if b.len() > 0 {
        assert((a + b).drop_last() =~= a + b.drop_last());
        assert((a + b).last() == b[b.len() - 1]);
        lemma_last_slash_component(a, b.drop_last());
    } else {
        assert(a + b =~= a);
    }
}

proof fn lemma_joined_parts(dir: Seq<char>, name: Seq<char>)
    requires
        is_clean_dir(dir),
        is_component(name),
    ensures
        trim_end_slashes(joined_remote(dir, name)) == joined_remote(dir, name),
        last_slash(joined_remote(dir, name)) == Some(if dir == root_path() { 0nat } else { dir.len() }),
        dir != root_path() ==> joined_remote(dir, name).subrange(0, dir.len() as int) == dir,
{
    assert(trim_start_slashes(name) == name);
    let j = joined_remote(dir, name);
    let head = if dir == root_path() { root_path() } else { dir + root_path() };
    if dir != root_path() {
        assert(trim_end_slashes(dir) == dir);
    }
    assert(j =~= head + name);
    assert(j.last() == name[name.len() - 1]);
    assert(j.drop_last() =~= head + name.drop_last());
    lemma_last_slash_component(head, name);
    assert(head.drop_last() =~= (if dir == root_path() { Seq::<char>::empty() } else { dir }));
    if dir != root_path() {
        assert(j.subrange(0, dir.len() as int) =~= dir);
    }
}

/// Going up from a directory entered by name gives back the directory:
/// the parent of `dir` joined with a single component `name` is `dir`, both
/// as [`remote_parent`] and as [`parent_dir`] compute it. The joined path is
/// again a directory path of the same form.
pub proof fn parent_of_joined(dir: Seq<char>, name: Seq<char>)
    requires
        is_clean_dir(dir),
        is_component(name),
    ensures
        remote_parent_of(joined_remote(dir, name)) == dir,
        parent_dir_of(joined_remote(dir, name)) == Some(dir),
        is_clean_dir(joined_remote(dir, name)),
{
    lemma_joined_parts(dir, name);
    let j = joined_remote(dir, name);
    assert(j.len() > 1);
    assert(j.last() == name[name.len() - 1]);
    assert(j != root_path());
}

/// The name under which timestamps are shown: UTC date and time to the minute.
pub open spec fn timestamp_pattern() -> Seq<char> {
    "%Y-%m-%d %H:%M"@
}

/// The text chrono gives for the UTC date-time `secs` seconds after the Unix
/// epoch formatted with `pattern`, or none when the instant is out of range.
pub uninterp spec fn utc_formatted(secs: int, pattern: Seq<char>) -> Option<Seq<char>>;

/// Formats the UTC date-time `secs` seconds after the Unix epoch with
/// `chrono::DateTime::from_timestamp` and `format(pattern)`. The contract
/// claims only that the result is [`utc_formatted`] of the seconds and the
/// pattern (the same inputs give the same text, and none exactly when
/// chrono has no date-time for them); it asks for the one pattern used, which
/// chrono can always render.
#[verifier::external_body]
fn format_utc(secs: i64, pattern: &str) -> (r: Option<String>)
    requires
        pattern@ == timestamp_pattern(),
    ensures
        r matches Some(s) ==> utc_formatted(secs as int, pattern@) == Some(s@),
        r is None ==> utc_formatted(secs as int, pattern@) is None,
{
    match chrono::DateTime::from_timestamp(secs, 0) {
        Some(dt) => Some(dt.format(pattern).to_string()),
        None => None,
    }
}

/// How a modification time is shown: the UTC date and time to the minute,
/// or the raw number when chrono cannot place it.
pub open spec fn shown_mtime(t: u32) -> Seq<char> {
    match utc_formatted(t as int, timestamp_pattern()) {
        Some(s) => s,
        None => decimal(t as nat),
    }
}

/// The displayed modification time of a remote file.
pub fn format_mtime(t: u32) -> (r: String)
    ensures
        r@ == shown_mtime(t),
{
    let pattern = "%Y-%m-%d %H:%M";
    match format_utc(t as i64, pattern) {
        Some(s) => s,
        None => decimal_string(t as u64),
    }
}

/// The entry for `name` listed in `dir`, from the attributes the server sent.
pub open spec fn listed_entry(
    dir: Seq<char>,
    name: Seq<char>,
    is_dir: bool,
    size: Option<u64>,
    mtime: Option<u32>,
    permissions: Option<u32>,
    e: FileEntry,
) -> bool {
    &&& e.name@ == name
    &&& e.path@ == listed_path(dir, name)
    &&& e.is_dir == is_dir
    &&& e.size == (match size { Some(s) => s, None => 0 })
    &&& match mtime {
        Some(t) => e.modified matches Some(m) && m@ == shown_mtime(t),
        None => e.modified is None,
    }
    &&& match permissions {
        Some(p) => e.permissions matches Some(q) && q@ == zero_padded(octal(p as nat), 3),
        None => e.permissions is None,
    }
}

/// Builds the entry for `name` listed in `dir`.
pub fn file_entry(
    dir: &str,
    name: String,
    is_dir: bool,
    size: Option<u64>,
    mtime: Option<u32>,
    permissions: Option<u32>,
) -> (r: FileEntry)
    ensures
        listed_entry(dir@, name@, is_dir, size, mtime, permissions, r),
{
    let d = chars_of(dir);
    let end = trim_end_slashes_len(&d);
    let mut path = string_from_range(&d, 0, end);
    path.append("/");
    path.append(name.as_str());
    proof {
        reveal_strlit("/");
    }
    assert(path@ == listed_path(dir@, name@));
    let modified = match mtime {
        Some(t) => Some(format_mtime(t)),
        None => None,
    };
    let perms = match permissions {
        Some(p) => Some(octal_string_3(p)),
        None => None,
    };
    let size = match size {
        Some(s) => s,
        None => 0,
    };
    FileEntry { name, path, is_dir, size, modified, permissions: perms }
}

/// The lowercase form of `s` (`str::to_lowercase`, full Unicode mapping).
pub uninterp spec fn lowercased(s: Seq<char>) -> Seq<char>;

/// Lowercases `s` with `str::to_lowercase`. The contract claims only that
/// the result is [`lowercased`] of `s`: the same text always lowercases the
/// same way.
#[verifier::external_body]
fn lowercase(s: &str) -> (r: String)
    ensures
        r@ == lowercased(s@),
{
    s.to_lowercase()
}

/// Whether `a` comes strictly before `b` in character-code order (the order
/// of `str`'s `Ord`, which compares UTF-8 bytes).
pub open spec fn lex_less(a: Seq<char>, b: Seq<char>) -> bool
    decreases a.len(),
{
    if a.len() == 0 {
        b.len() > 0
    } else if b.len() == 0 {
        false
    } else if (a[0] as int) < (b[0] as int) {
        true
    } else if (a[0] as int) > (b[0] as int) {
        false
    } else {
        lex_less(a.drop_first(), b.drop_first())
    }
}

fn lex_less_exec(a: &Vec<char>, b: &Vec<char>) -> (r: bool)
    ensures
        r == lex_less(a@, b@),
{
    let mut i: usize = 0;
    assert(a@.subrange(0, a@.len() as int) =~= a@);
    assert(b@.subrange(0, b@.len() as int) =~= b@);
    while i < a.len() && i < b.len() && a[i] == b[i]
        invariant
            i <= a@.len(),
            i <= b@.len(),
            lex_less(a@, b@) == lex_less(a@.subrange(i as int, a@.len() as int), b@.subrange(i as int, b@.len() as int)),
        decreases a.len() - i,
    {
        assert(a@.subrange(i as int, a@.len() as int).drop_first() =~= a@.subrange(i + 1, a@.len() as int));
        assert(b@.subrange(i as int, b@.len() as int).drop_first() =~= b@.subrange(i + 1, b@.len() as int));
        i = i + 1;
    }
    let ghost sa = a@.subrange(i as int, a@.len() as int);
    let ghost sb = b@.subrange(i as int, b@.len() as int);
    assert(sa.len() > 0 ==> sa[0] == a@[i as int]);
    assert(sb.len() > 0 ==> sb[0] == b@[i as int]);
    if i == a.len() {
        assert(sa.len() == 0);
        i < b.len()
    } else if i == b.len() {
        assert(sb.len() == 0 && sa.len() > 0);
        false
    } else {
        let ca = a[i];
        let cb = b[i];
        assert(ca != cb);
        ca < cb
    }
}

/// The listing order: directories before files, then by lowercase name.
pub open spec fn entry_before(a: FileEntry, b: FileEntry) -> bool {
    if a.is_dir != b.is_dir {
        a.is_dir
    } else {
        lex_less(lowercased(a.name@), lowercased(b.name@))
    }
}

fn goes_before(a: &FileEntry, ak: &Vec<char>, b: &FileEntry, bk: &Vec<char>) -> (r: bool)
    requires
        ak@ == lowercased(a.name@),
        bk@ == lowercased(b.name@),
    ensures
        r == entry_before(*a, *b),
{
    if a.is_dir != b.is_dir {
        a.is_dir
    } else {
        lex_less_exec(ak, bk)
    }
}

/// `x` inserted into `s` after every entry it does not come before.
pub open spec fn insert_entry(s: Seq<FileEntry>, x: FileEntry) -> Seq<FileEntry>
    decreases s.len(),
{
    if s.len() == 0 {
        seq![x]
    } else if entry_before(x, s.last()) {
        insert_entry(s.drop_last(), x).push(s.last())
    } else {
        s.push(x)
    }
}

/// The entries in listing order; entries that tie keep their relative order
/// (a stable sort).
pub open spec fn sorted_entries(s: Seq<FileEntry>) -> Seq<FileEntry>
    decreases s.len(),
{
    if s.len() == 0 {
        s
    } else {
        insert_entry(sorted_entries(s.drop_last()), s.last())
    }
}

proof fn lemma_insert_at(t: Seq<FileEntry>, x: FileEntry, j: int)
    requires
        0 <= j <= t.len(),
        forall|k: int| j <= k < t.len() ==> entry_before(x, #[trigger] t[k]),
        j == 0 || !entry_before(x, t[j - 1]),
    ensures
        insert_entry(t, x) == t.subrange(0, j).push(x) + t.subrange(j, t.len() as int),
    decreases t.len(),
{
    if t.len() == 0 {
        assert(t.subrange(0, j).push(x) + t.subrange(j, t.len() as int) =~= seq![x]);
    } else if j == t.len() {
        assert(t.subrange(0, j) =~= t);
        assert(t.subrange(0, j).push(x) + t.subrange(j, t.len() as int) =~= t.push(x));
    } else {
        let u = t.drop_last();
        lemma_insert_at(u, x, j);
        assert(t.subrange(0, j).push(x) + t.subrange(j, t.len() as int) =~= (u.subrange(0, j).push(x)
            + u.subrange(j, u.len() as int)).push(t.last()));
    }
}

proof fn lemma_lex_irreflexive(a: Seq<char>)
    ensures
        !lex_less(a, a),
    decreases a.len(),
{
    if a.len() > 0 {
        lemma_lex_irreflexive(a.drop_first());
    }
}

proof fn lemma_lex_transitive(a: Seq<char>, b: Seq<char>, c: Seq<char>)
    requires
        lex_less(a, b),
        lex_less(b, c),
    ensures
        lex_less(a, c),
    decreases a.len(),
{
    if a.len() > 0 && b.len() > 0 && c.len() > 0 && a[0] == b[0] && b[0] == c[0] {
        lemma_lex_transitive(a.drop_first(), b.drop_first(), c.drop_first());
    }
}

proof fn lemma_lex_total(a: Seq<char>, b: Seq<char>)
    ensures
        a =~= b || lex_less(a, b) || lex_less(b, a),
    decreases a.len(),
{
    if a.len() > 0 && b.len() > 0 && a[0] == b[0] {
        lemma_lex_total(a.drop_first(), b.drop_first());
        if a.drop_first() =~= b.drop_first() {
            assert(a =~= seq![a[0]] + a.drop_first());
            assert(b =~= seq![b[0]] + b.drop_first());
        }
    }
}

/// Neither entry goes before the other: they tie in the listing order.
proof fn lemma_before_not_not(x: FileEntry, y: FileEntry, z: FileEntry)
    requires
        !entry_before(x, y),
        !entry_before(y, z),
    ensures
        !entry_before(x, z),
{
    let (kx, ky, kz) = (lowercased(x.name@), lowercased(y.name@), lowercased(z.name@));
    lemma_lex_total(kx, ky);
    lemma_lex_total(ky, kz);
    lemma_lex_irreflexive(kx);
    lemma_lex_irreflexive(kz);
    if lex_less(ky, kx) && lex_less(kz, ky) {
        lemma_lex_transitive(kz, ky, kx);
    }
    if lex_less(kx, kz) && lex_less(kz, kx) {
        lemma_lex_transitive(kx, kz, kx);
    }
}

proof fn lemma_before_asymmetric(x: FileEntry, y: FileEntry)
    requires
        entry_before(x, y),
    ensures
        !entry_before(y, x),
{
    let (kx, ky) = (lowercased(x.name@), lowercased(y.name@));
    if lex_less(ky, kx) && lex_less(kx, ky) {
        lemma_lex_transitive(kx, ky, kx);
        lemma_lex_irreflexive(kx);
    }
}

/// Whether no entry of `s` goes before an entry that precedes it.
pub open spec fn in_listing_order(s: Seq<FileEntry>) -> bool {
    forall|i: int, j: int| 0 <= i < j < s.len() ==> !entry_before(#[trigger] s[j], #[trigger] s[i])
}

proof fn lemma_insert_entry(t: Seq<FileEntry>, x: FileEntry)
    requires
        in_listing_order(t),
    ensures
        in_listing_order(insert_entry(t, x)),
        insert_entry(t, x).to_multiset() == t.to_multiset().insert(x),
    decreases t.len(),
{
    broadcast use vstd::seq_lib::group_to_multiset_ensures;
    let r = insert_entry(t, x);
    if t.len() == 0 {
        assert(r =~= Seq::<FileEntry>::empty().push(x));
    } else if entry_before(x, t.last()) {
        let u = t.drop_last();
        assert(in_listing_order(u)) by {
            assert forall|i: int, j: int| 0 <= i < j < u.len() implies !entry_before(#[trigger] u[j], #[trigger] u[i]) by {
                assert(u[i] == t[i] && u[j] == t[j]);
            }
        }
        lemma_insert_entry(u, x);
        let v = insert_entry(u, x);
        let last = t.last();
        assert(t =~= u.push(last));
        assert forall|k: int| 0 <= k < v.len() implies !entry_before(last, #[trigger] v[k]) by {
            assert(v.to_multiset().count(v[k]) > 0);
            if v[k] == x {
                lemma_before_asymmetric(x, last);
            } else {
                assert(u.to_multiset().count(v[k]) > 0);
                let i = choose|i: int| 0 <= i < u.len() && u[i] == v[k];
                assert(t[i] == u[i] && t[t.len() - 1] == last);
            }
        }
        assert forall|i: int, j: int| 0 <= i < j < r.len() implies !entry_before(#[trigger] r[j], #[trigger] r[i]) by {
            if j == r.len() - 1 {
                assert(r[j] == last && r[i] == v[i]);
            } else {
                assert(r[j] == v[j] && r[i] == v[i]);
            }
        }
    } else {
        assert forall|i: int, j: int| 0 <= i < j < r.len() implies !entry_before(#[trigger] r[j], #[trigger] r[i]) by {
            if j == r.len() - 1 {
                assert(r[j] == x && r[i] == t[i]);
                if i < t.len() - 1 {
                    assert(!entry_before(t[t.len() - 1], t[i]));
                    lemma_before_not_not(x, t[t.len() - 1], t[i]);
                }
            } else {
                assert(r[j] == t[j] && r[i] == t[i]);
            }
        }
    }
}

/// A sorted listing holds the same entries as the listing it came from, and
/// no entry in it goes before an earlier one: directories come first, and
/// within each kind the lowercase names ascend.
pub proof fn sorted_listing_law(s: Seq<FileEntry>)
    ensures
        sorted_entries(s).to_multiset() == s.to_multiset(),
        in_listing_order(sorted_entries(s)),
    decreases s.len(),
{
    broadcast use vstd::seq_lib::group_to_multiset_ensures;
    if s.len() > 0 {
        sorted_listing_law(s.drop_last());
        lemma_insert_entry(sorted_entries(s.drop_last()), s.last());
        assert(s =~= s.drop_last().push(s.last()));
    }
}

/// Sorts a listing: directories first, then by lowercase name; ties keep
/// their order.
pub fn sort_entries(entries: Vec<FileEntry>) -> (r: Vec<FileEntry>)
    ensures
        r@ == sorted_entries(entries@),
{
    let mut out: Vec<FileEntry> = Vec::new();
    let mut keys: Vec<Vec<char>> = Vec::new();
    let mut rest = entries;
    let ghost all = rest@;
    let ghost mut n: int = 0;
    while rest.len() > 0
        invariant
            0 <= n <= all.len(),
            rest@ == all.subrange(n, all.len() as int),
            out@ == sorted_entries(all.subrange(0, n)),
            keys@.len() == out@.len(),
            forall|k: int| 0 <= k < out@.len() ==> (#[trigger] keys@[k])@ == lowercased(out@[k].name@),
        decreases rest.len(),
    {
        let x = rest.remove(0);
        let xk_s = lowercase(x.name.as_str());
        let xk = chars_of(xk_s.as_str());
        let ghost t = out@;
        let mut j = out.len();
        while j > 0 && goes_before(&x, &xk, &out[j - 1], &keys[j - 1])
            invariant
                j <= out@.len(),
                out@ == t,
                keys@.len() == out@.len(),
                forall|k: int| 0 <= k < out@.len() ==> (#[trigger] keys@[k])@ == lowercased(out@[k].name@),
                xk@ == lowercased(x.name@),
                forall|k: int| j <= k < t.len() ==> entry_before(x, #[trigger] t[k]),
            decreases j,
        {
            j = j - 1;
        }
        proof {
            lemma_insert_at(t, x, j as int);
            assert(all.subrange(0, n + 1).drop_last() =~= all.subrange(0, n));
            assert(all.subrange(0, n + 1).last() == x);
        }
        out.insert(j, x);
        keys.insert(j, xk);
        proof {
            assert(out@ =~= t.subrange(0, j as int).push(x) + t.subrange(j as int, t.len() as int));
            n = n + 1;
            assert(rest@ =~= all.subrange(n, all.len() as int));
        }
    }
    assert(all.subrange(0, n) =~= all);
    out
}

} // verus!
