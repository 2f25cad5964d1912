//! Mapping between local file paths and remote object keys.
//!
//! Remote keys are flat, slash-separated strings. An uploaded file under a
//! source root is stored at `<root base name>/<path relative to the root>`;
//! a downloaded object is written to `<target>/<key without the folder prefix>`.
use vstd::prelude::*;
use vstd::string::*;

verus! {

/// `s` with every trailing `/` removed.
pub open spec fn trim_trailing_slashes(s: Seq<char>) -> Seq<char>
    decreases s.len(),
{
    if s.len() > 0 && s.last() == '/' {
        trim_trailing_slashes(s.drop_last())
    } else {
        s
    }
}

/// `s` with every leading `/` removed.
pub open spec fn trim_leading_slashes(s: Seq<char>) -> Seq<char>
    decreases s.len(),
{
    if s.len() > 0 && s[0] == '/' {
        trim_leading_slashes(s.skip(1))
    } else {
        s
    }
}

/// Position just after the last `/` of `s`, or 0 when `s` holds none.
pub open spec fn after_last_slash(s: Seq<char>) -> int
    decreases s.len(),
{
    if s.len() == 0 {
        0
    } else if s.last() == '/' {
        s.len() as int
    } else {
        after_last_slash(s.drop_last())
    }
}

/// The last `/`-separated component of `s`.
pub open spec fn last_component(s: Seq<char>) -> Seq<char> {
    s.subrange(after_last_slash(s), s.len() as int)
}

pub open spec fn is_dot_name(c: Seq<char>) -> bool {
    (c.len() == 1 && c[0] == '.') || (c.len() == 2 && c[0] == '.' && c[1] == '.')
}

/// Name used for a root whose path has no final component.
pub open spec fn default_folder_name() -> Seq<char> {
    seq!['f', 'o', 'l', 'd', 'e', 'r']
}

/// Whether the end of `s` is a slash or a `.` component, which a path's
/// final name ignores.
pub open spec fn tail_removable(s: Seq<char>) -> bool {
    s.len() > 0 && (s.last() == '/' || (s.last() == '.' && (s.len() == 1 || s[s.len() - 2]
        == '/')))
}

/// `s` without its trailing slashes and trailing `.` components.
pub open spec fn trim_tail(s: Seq<char>) -> Seq<char>
    decreases s.len(),
{
    if tail_removable(s) {
        trim_tail(s.drop_last())
    } else {
        s
    }
}

/// Base name of a root directory path: its last component, ignoring
/// trailing slashes and `.` components; `folder` when there is none, or
/// when it is `..`.
pub open spec fn spec_base_name(root: Seq<char>) -> Seq<char> {
    let c = last_component(trim_tail(root));
    if c.len() == 0 || is_dot_name(c) {
        default_folder_name()
    } else {
        c
    }
}

/// Remote key of a file: the root's base name, a slash, then the path of
/// the file relative to the root.
pub open spec fn spec_remote_key(base: Seq<char>, relative: Seq<char>) -> Seq<char> {
    base + seq!['/'] + relative
}

/// A key that ends in `/` marks a directory and names no file.
pub open spec fn spec_is_directory_marker(key: Seq<char>) -> bool {
    key.len() > 0 && key.last() == '/'
}

/// Path of a key relative to a downloaded folder: the folder prefix is
/// removed when present, then any leading slashes.
pub open spec fn spec_local_relative(folder: Seq<char>, key: Seq<char>) -> Seq<char> {
    let rest = if folder.is_prefix_of(key) {
        key.skip(folder.len() as int)
    } else {
        key
    };
    trim_leading_slashes(rest)
}

/// `relative` placed under directory `dir`, with one separator between them.
pub open spec fn spec_join(dir: Seq<char>, relative: Seq<char>) -> Seq<char> {
    if dir.len() == 0 {
        relative
    } else if dir.last() == '/' {
        dir + relative
    } else {
        dir + seq!['/'] + relative
    }
}

/// Local path that a downloaded key is written to.
pub open spec fn spec_local_path(folder: Seq<char>, key: Seq<char>, target: Seq<char>) -> Seq<char> {
    spec_join(target, spec_local_relative(folder, key))
}

/// A file at `relative` under root `root` is uploaded under the key made
/// from the root's base name; downloading that key from the folder of the
/// same name, with or without its trailing slash, into `target` writes it to
/// `relative` under `target`.
pub proof fn lemma_path_round_trip(root: Seq<char>, relative: Seq<char>, target: Seq<char>)
    requires
        relative.len() == 0 || relative[0] != '/',
    ensures
        spec_local_path(
            spec_base_name(root),
            spec_remote_key(spec_base_name(root), relative),
            target,
        ) == spec_join(target, relative),
        spec_local_path(
            spec_base_name(root) + seq!['/'],
            spec_remote_key(spec_base_name(root), relative),
            target,
        ) == spec_join(target, relative),
{
    let base = spec_base_name(root);
    let key = spec_remote_key(base, relative);
    let slashed = base + seq!['/'];
    assert(base.is_prefix_of(key));
    assert(slashed.is_prefix_of(key));
    let rest = key.skip(base.len() as int);
    assert(rest =~= seq!['/'] + relative);
    assert(rest.skip(1) =~= relative);
    assert(trim_leading_slashes(relative) == relative);
    assert(trim_leading_slashes(rest) == relative);
    assert(key.skip(slashed.len() as int) =~= relative);
}

proof fn lemma_prefix_drop_last(s: Seq<char>, k: int)
    requires
        0 < k <= s.len(),
    ensures
        s.subrange(0, k).drop_last() == s.subrange(0, k - 1),
        s.subrange(0, k).last() == s[k - 1],
{
    assert(s.subrange(0, k).drop_last() =~= s.subrange(0, k - 1));
}

/// Whether the first `end` characters of `s` end in a slash or a `.`
/// component.
fn tail_removable_at(s: &str, end: usize) -> (r: bool)
    requires
        end <= s@.len(),
    ensures
        r == tail_removable(s@.subrange(0, end as int)),
{
    if end == 0 {
        return false;
    }
    let last = s.get_char(end - 1);
    if last == '/' {
        return true;
    }
    last == '.' && (end == 1 || s.get_char(end - 2) == '/')
}

/// Base name of a root directory path, as used for the first segment of
/// every remote key made from that root.
pub fn base_name(root: &str) -> (r: String)
    ensures
        r@ == spec_base_name(root@),
{
    let n = root.unicode_len();
    let mut end: usize = n;
    proof {
        assert(root@.subrange(0, n as int) =~= root@);
    }
    while tail_removable_at(root, end)
        invariant
            end <= n,
            n == root@.len(),
            trim_tail(root@) == trim_tail(root@.subrange(0, end as int)),
        decreases end,
    {
        proof {
            lemma_prefix_drop_last(root@, end as int);
        }
        end = end - 1;
    }
    let ghost trimmed = root@.subrange(0, end as int);
    proof {
        assert(trim_tail(root@) == trimmed);
    }
    let mut start: usize = end;
    proof {
        assert(trimmed.subrange(0, end as int) =~= trimmed);
    }
    while start > 0 && root.get_char(start - 1) != '/'
        invariant
            start <= end <= n,
            n == root@.len(),
            trimmed == root@.subrange(0, end as int),
            after_last_slash(trimmed) == after_last_slash(trimmed.subrange(0, start as int)),
        decreases start,
    {
        proof {
            lemma_prefix_drop_last(trimmed, start as int);
        }
        start = start - 1;
    }
    proof {
        if start > 0 {
            lemma_prefix_drop_last(trimmed, start as int);
        }
        assert(after_last_slash(trimmed) == start);
    }
    let comp = root.substring_char(start, end);
    proof {
        assert(comp@ =~= last_component(trimmed));
    }
    let len = comp.unicode_len();
    let dot = (len == 1 && comp.get_char(0) == '.') || (len == 2 && comp.get_char(0) == '.'
        && comp.get_char(1) == '.');
    if len == 0 || dot {
        let r = String::from_str("folder");
        proof {
            reveal_strlit("folder");
            assert(r@ =~= default_folder_name());
        }
        r
    } else {
        String::from_str(comp)
    }
}

/// Remote key of a file found under a root with base name `base`.
pub fn remote_key(base: &str, relative: &str) -> (r: String)
    ensures
        r@ == spec_remote_key(base@, relative@),
{
    let mut r = String::from_str(base);
    r.append("/");
    r.append(relative);
    proof {
        reveal_strlit("/");
    }
    r
}

/// Whether a remote key is a directory marker (ends in `/`).
pub fn is_directory_marker(key: &str) -> (r: bool)
    ensures
        r == spec_is_directory_marker(key@),
{
    let n = key.unicode_len();
    n > 0 && key.get_char(n - 1) == '/'
}

/// `s` without its trailing slashes.
pub fn strip_trailing_slashes(s: &str) -> (r: String)
    ensures
        r@ == trim_trailing_slashes(s@),
{
    let n = s.unicode_len();
    let mut end: usize = n;
    proof {
        assert(s@.subrange(0, n as int) =~= s@);
    }
    while end > 0 && s.get_char(end - 1) == '/'
        invariant
            end <= n,
            n == s@.len(),
            trim_trailing_slashes(s@) == trim_trailing_slashes(s@.subrange(0, end as int)),
        decreases end,
    {
        proof {
            lemma_prefix_drop_last(s@, end as int);
        }
        end = end - 1;
    }
    proof {
        if end > 0 {
            lemma_prefix_drop_last(s@, end as int);
        }
    }
    String::from_str(s.substring_char(0, end))
}

/// Whether `prefix` is a prefix of `s`, character by character.
pub fn starts_with_chars(s: &str, prefix: &str) -> (r: bool)
    ensures
        r == prefix@.is_prefix_of(s@),
{
    let n = s.unicode_len();
    let m = prefix.unicode_len();
    if m > n {
        return false;
    }
    let mut i: usize = 0;
    while i < m
        invariant
            i <= m <= n,
            n == s@.len(),
            m == prefix@.len(),
            forall|j: int| 0 <= j < i ==> prefix@[j] == s@[j],
        decreases m - i,
    {
        if s.get_char(i) != prefix.get_char(i) {
            return false;
        }
        i = i + 1;
    }
    true
}

/// Whether `a` and `b` hold the same characters.
pub fn same_text(a: &str, b: &str) -> (r: bool)
    ensures
        r == (a@ == b@),
{
    if a.unicode_len() != b.unicode_len() {
        return false;
    }
    let r = starts_with_chars(a, b);
    proof {
        if r {
            assert(a@ =~= b@);
        }
    }
    r
}

/// `s` without its leading slashes.
fn strip_leading_slashes(s: &str) -> (r: String)
    ensures
        r@ == trim_leading_slashes(s@),
{
    let n = s.unicode_len();
    let mut i: usize = 0;
    proof {
        assert(s@.skip(0) =~= s@);
    }
    while i < n && s.get_char(i) == '/'
        invariant
            i <= n,
            n == s@.len(),
            trim_leading_slashes(s@) == trim_leading_slashes(s@.skip(i as int)),
        decreases n - i,
    {
        proof {
            assert(s@.skip(i as int).skip(1) =~= s@.skip(i + 1));
        }
        i = i + 1;
    }
    let rest = s.substring_char(i, n);
    proof {
        assert(rest@ =~= s@.skip(i as int));
    }
    String::from_str(rest)
}

/// Path of a key relative to the downloaded folder `folder`.
pub fn local_relative(folder: &str, key: &str) -> (r: String)
    ensures
        r@ == spec_local_relative(folder@, key@),
{
    if starts_with_chars(key, folder) {
        let rest = key.substring_char(folder.unicode_len(), key.unicode_len());
        proof {
            assert(rest@ =~= key@.skip(folder@.len() as int));
        }
        strip_leading_slashes(rest)
    } else {
        strip_leading_slashes(key)
    }
}

/// `relative` placed under directory `dir`.
pub fn join_path(dir: &str, relative: &str) -> (r: String)
    ensures
        r@ == spec_join(dir@, relative@),
{
    let n = dir.unicode_len();
    let mut r = String::from_str(dir);
    if n > 0 && dir.get_char(n - 1) != '/' {
        r.append("/");
        proof {
            reveal_strlit("/");
        }
    }
    r.append(relative);
    r
}

/// Local path that the object at `key`, listed under `folder`, is
/// downloaded to below `target`.
pub fn local_path(folder: &str, key: &str, target: &str) -> (r: String)
    ensures
        r@ == spec_local_path(folder@, key@, target@),
{
    let rel = local_relative(folder, key);
    join_path(target, rel.as_str())
}

} // verus!
