//! Unix path arithmetic on character sequences.
//!
//! The functions here follow the component rules of Rust's `std::path` on
//! Unix: a leading `/` is the root, a leading `.` followed by nothing or by a
//! separator is the current directory, and inside the body of a path empty
//! and `.` segments are skipped.

use vstd::prelude::*;

verus! {

/// The path starts at the root directory.
pub open spec fn has_root(p: Seq<char>) -> bool {
    p.len() > 0 && p[0] == '/'
}

/// The relative path starts with a current-directory component (`.` alone,
/// or `./...`).
pub open spec fn has_cur_dir_prefix(p: Seq<char>) -> bool {
    &&& !has_root(p)
    &&& p.len() > 0
    &&& p[0] == '.'
    &&& (p.len() == 1 || p[1] == '/')
}

/// Where the body of the path (what follows the root or the leading `.`) starts.
pub open spec fn body_start(p: Seq<char>) -> int {
    if has_root(p) || has_cur_dir_prefix(p) { 1 } else { 0 }
}

/// Index of the last separator in `p[lo..hi]`, or `lo - 1` when there is none.
pub open spec fn last_sep(p: Seq<char>, lo: int, hi: int) -> int
    decreases hi - lo,
{
    if hi <= lo {
        lo - 1
    } else if p[hi - 1] == '/' {
        hi - 1
    } else {
        last_sep(p, lo, hi - 1)
    }
}

pub proof fn lemma_last_sep_bounds(p: Seq<char>, lo: int, hi: int)
    requires
        lo <= hi,
    ensures
        lo - 1 <= last_sep(p, lo, hi) < hi,
        last_sep(p, lo, hi) >= lo ==> p[last_sep(p, lo, hi)] == '/',
        forall|k: int| last_sep(p, lo, hi) < k < hi ==> p[k] != '/',
    decreases hi - lo,
{
    if hi > lo && p[hi - 1] != '/' {
        lemma_last_sep_bounds(p, lo, hi - 1);
    }
}

/// A segment that names no component: empty (from repeated separators) or `.`.
pub open spec fn is_skipped(seg: Seq<char>) -> bool {
    seg.len() == 0 || seg =~= seq!['.']
}

/// Start and end of the last segment of `p[lo..hi]` that is a component.
pub open spec fn last_component(p: Seq<char>, lo: int, hi: int) -> Option<(int, int)>
    decreases hi - lo,
{
    if hi <= lo {
        None
    } else {
        let s = last_sep(p, lo, hi) + 1;
        if !is_skipped(p.subrange(s, hi)) {
            Some((s, hi))
        } else if s == lo {
            None
        } else {
            proof {
                lemma_last_sep_bounds(p, lo, hi);
            }
            last_component(p, lo, s - 1)
        }
    }
}

pub proof fn lemma_last_component_bounds(p: Seq<char>, lo: int, hi: int)
    requires
        0 <= lo <= hi <= p.len(),
    ensures
        last_component(p, lo, hi) matches Some((s, e)) ==> {
            &&& lo <= s < e <= hi
            &&& !is_skipped(p.subrange(s, e))
            &&& (s == lo || p[s - 1] == '/')
            &&& forall|k: int| s <= k < e ==> p[k] != '/'
        },
    decreases hi - lo,
{
    if hi > lo {
        lemma_last_sep_bounds(p, lo, hi);
        let s = last_sep(p, lo, hi) + 1;
        if is_skipped(p.subrange(s, hi)) && s != lo {
            lemma_last_component_bounds(p, lo, s - 1);
        }
    }
}


/// The final component of `p`, when it is a normal name (what
/// `Path::file_name` returns).
pub open spec fn file_name_of(p: Seq<char>) -> Option<Seq<char>> {
    match last_component(p, body_start(p), p.len() as int) {
        Some((s, e)) => if p.subrange(s, e) =~= seq!['.', '.'] {
            None
        } else {
            Some(p.subrange(s, e))
        },
        None => None,
    }
}

/// The path without its final component (what `Path::parent` returns).
pub open spec fn parent_of(p: Seq<char>) -> Option<Seq<char>> {
    let bs = body_start(p);
    match last_component(p, bs, p.len() as int) {
        Some((s, e)) => {
            let before = if s > bs { s - 1 } else { bs };
            let end = match last_component(p, bs, before) {
                Some((_, e2)) => e2,
                None => bs,
            };
            Some(p.subrange(0, end))
        },
        None => if has_cur_dir_prefix(p) {
            Some(Seq::<char>::empty())
        } else {
            None
        },
    }
}

/// Index of the last `.` in `name[..hi]`, or `-1` when there is none.
pub open spec fn last_dot(name: Seq<char>, hi: int) -> int
    decreases hi,
{
    if hi <= 0 {
        -1
    } else if name[hi - 1] == '.' {
        hi - 1
    } else {
        last_dot(name, hi - 1)
    }
}

pub proof fn lemma_last_dot_bounds(name: Seq<char>, hi: int)
    requires
        0 <= hi,
    ensures
        -1 <= last_dot(name, hi) < hi,
    decreases hi,
{
    if hi > 0 && name[hi - 1] != '.' {
        lemma_last_dot_bounds(name, hi - 1);
    }
}

/// The stem of a file name: everything before the last `.`, unless the only
/// `.` is the first character or there is none.
pub open spec fn stem_of(name: Seq<char>) -> Seq<char> {
    let d = last_dot(name, name.len() as int);
    if d <= 0 {
        name
    } else {
        name.subrange(0, d)
    }
}

/// What `Path::file_stem` returns.
pub open spec fn file_stem_of(p: Seq<char>) -> Option<Seq<char>> {
    match file_name_of(p) {
        Some(n) => Some(stem_of(n)),
        None => None,
    }
}

/// What `PathBuf::push` (and `Path::join`) makes of `base` and `q`: an
/// absolute `q` replaces `base`, otherwise a separator is put between them
/// unless `base` is empty or already ends with one.
pub open spec fn join_of(base: Seq<char>, q: Seq<char>) -> Seq<char> {
    if has_root(q) {
        q
    } else if base.len() == 0 || base.last() == '/' {
        base + q
    } else {
        base + seq!['/'] + q
    }
}

fn char_at(p: &str, i: usize) -> (c: char)
    requires
        i < p@.len(),
    ensures
        c == p@[i as int],
{
    p.get_char(i)
}

fn body_start_exec(p: &str) -> (r: usize)
    ensures
        r == body_start(p@),
{
    let n = p.unicode_len();
    if n == 0 {
        0
    } else {
        let c0 = char_at(p, 0);
        if c0 == '/' {
            1
        } else if c0 == '.' && (n == 1 || char_at(p, 1) == '/') {
            1
        } else {
            0
        }
    }
}

/// Start of the last segment of `p[lo..hi]`.
fn segment_start(p: &str, lo: usize, hi: usize) -> (s: usize)
    requires
        lo <= hi <= p@.len(),
    ensures
        s == last_sep(p@, lo as int, hi as int) + 1,
        lo <= s <= hi,
{
    let mut j = hi;
    while j > lo
        invariant
            lo <= j <= hi <= p@.len(),
            last_sep(p@, lo as int, hi as int) == last_sep(p@, lo as int, j as int),
        decreases j,
    {
        if char_at(p, j - 1) == '/' {
            return j;
        }
        j = j - 1;
    }
    lo
}

fn is_skipped_exec(p: &str, s: usize, e: usize) -> (r: bool)
    requires
        s <= e <= p@.len(),
    ensures
        r == is_skipped(p@.subrange(s as int, e as int)),
{
    if e == s {
        true
    } else if e == s + 1 {
        let c = char_at(p, s);
        proof {
            if c == '.' {
                assert(p@.subrange(s as int, e as int) =~= seq!['.']);
            } else {
                assert(p@.subrange(s as int, e as int)[0] != seq!['.'][0]);
            }
        }
        c == '.'
    } else {
        proof {
            assert(p@.subrange(s as int, e as int).len() != seq!['.'].len());
        }
        false
    }
}

fn last_component_exec(p: &str, lo: usize, hi: usize) -> (r: Option<(usize, usize)>)
    requires
        lo <= hi <= p@.len(),
    ensures
        match r {
            Some((s, e)) => last_component(p@, lo as int, hi as int) == Some((s as int, e as int)),
            None => last_component(p@, lo as int, hi as int) is None,
        },
{
    let mut h = hi;
    loop
        invariant
            lo <= h <= hi <= p@.len(),
            last_component(p@, lo as int, hi as int) == last_component(p@, lo as int, h as int),
        decreases h,
    {
        if h <= lo {
            return None;
        }
        let s = segment_start(p, lo, h);
        if !is_skipped_exec(p, s, h) {
            return Some((s, h));
        } else if s == lo {
            return None;
        } else {
            h = s - 1;
        }
    }
}


fn substring(p: &str, from: usize, to: usize) -> (r: String)
    requires
        from <= to <= p@.len(),
    ensures
        r@ == p@.subrange(from as int, to as int),
{
    String::from_str(p.substring_char(from, to))
}

/// The final component of `path`, when it is a normal name; `None` for the
/// root, for `.` and `..`, and for the empty path.
pub fn file_name(path: &str) -> (r: Option<String>)
    ensures
        r.deep_view() == file_name_of(path@),
{
    let n = path.unicode_len();
    let bs = body_start_exec(path);
    match last_component_exec(path, bs, n) {
        Some((s, e)) => {
            proof {
                lemma_last_component_bounds(path@, bs as int, n as int);
            }
            let is_parent = e - s == 2 && char_at(path, s) == '.' && char_at(path, s + 1) == '.';
            proof {
                let seg = path@.subrange(s as int, e as int);
                if is_parent {
                    assert(seg =~= seq!['.', '.']);
                } else if e - s == 2 {
                    assert(seg[0] != '.' || seg[1] != '.');
                    assert(!(seg =~= seq!['.', '.']));
                } else {
                    assert(seg.len() != 2);
                    assert(!(seg =~= seq!['.', '.']));
                }
            }
            if is_parent {
                None
            } else {
                Some(substring(path, s, e))
            }
        },
        None => None,
    }
}

/// The path without its final component; `None` for the root and for the
/// empty path.
pub fn parent(path: &str) -> (r: Option<String>)
    ensures
        r.deep_view() == parent_of(path@),
{
    let n = path.unicode_len();
    let bs = body_start_exec(path);
    match last_component_exec(path, bs, n) {
        Some((s, _e)) => {
            proof {
                lemma_last_component_bounds(path@, bs as int, n as int);
            }
            let before = if s > bs {
                s - 1
            } else {
                bs
            };
            let end = match last_component_exec(path, bs, before) {
                Some((_s2, e2)) => e2,
                None => bs,
            };
            proof {
                lemma_last_component_bounds(path@, bs as int, before as int);
            }
            Some(substring(path, 0, end))
        },
        None => {
            if bs == 1 && char_at(path, 0) == '.' {
                Some(String::new())
            } else {
                None
            }
        },
    }
}

fn last_dot_exec(name: &str) -> (d: Option<usize>)
    ensures
        match d {
            Some(i) => last_dot(name@, name@.len() as int) == i as int,
            None => last_dot(name@, name@.len() as int) == -1,
        },
{
    let mut j = name.unicode_len();
    while j > 0
        invariant
            j <= name@.len(),
            last_dot(name@, name@.len() as int) == last_dot(name@, j as int),
        decreases j,
    {
        if char_at(name, j - 1) == '.' {
            return Some(j - 1);
        }
        j = j - 1;
    }
    None
}

/// The final component of `path` without its extension (what
/// `Path::file_stem` returns).
pub fn file_stem(path: &str) -> (r: Option<String>)
    ensures
        r.deep_view() == file_stem_of(path@),
{
    match file_name(path) {
        Some(name) => {
            proof {
                lemma_last_dot_bounds(name@, name@.len() as int);
            }
            let stem = match last_dot_exec(name.as_str()) {
                Some(d) => if d == 0 {
                    name.clone()
                } else {
                    substring(name.as_str(), 0, d)
                },
                None => name.clone(),
            };
            Some(stem)
        },
        None => None,
    }
}

/// `base` extended by `q` (what `Path::join` returns).
pub fn join(base: &str, q: &str) -> (r: String)
    ensures
        r@ == join_of(base@, q@),
{
    let qn = q.unicode_len();
    if qn > 0 && char_at(q, 0) == '/' {
        return String::from_str(q);
    }
    let bn = base.unicode_len();
    if bn == 0 || char_at(base, bn - 1) == '/' {
        String::from_str(base).concat(q)
    } else {
        proof {
            reveal_strlit("/");
        }
        String::from_str(base).concat("/").concat(q)
    }
}


/// A single normal component: not empty, no separator, neither `.` nor `..`.
pub open spec fn is_simple_name(n: Seq<char>) -> bool {
    &&& n.len() > 0
    &&& forall|k: int| 0 <= k < n.len() ==> n[k] != '/'
    &&& !(n =~= seq!['.'])
    &&& !(n =~= seq!['.', '.'])
}

/// `d` without trailing separators and `.` segments: the path that names
/// the same components as `d` and ends with its last one.
pub open spec fn trimmed_of(d: Seq<char>) -> Seq<char> {
    let bs = body_start(d);
    match last_component(d, bs, d.len() as int) {
        Some((_, e)) => d.subrange(0, e),
        None => d.subrange(0, bs),
    }
}

proof fn lemma_last_sep_at(p: Seq<char>, lo: int, hi: int, m: int)
    requires
        lo <= m <= hi <= p.len(),
        forall|k: int| m <= k < hi ==> p[k] != '/',
        m == lo || (lo <= m - 1 && p[m - 1] == '/'),
    ensures
        last_sep(p, lo, hi) == m - 1,
    decreases hi - lo,
{
    if hi > m {
        lemma_last_sep_at(p, lo, hi - 1, m);
    }
}

proof fn lemma_last_sep_agree(p: Seq<char>, q: Seq<char>, lo: int, hi: int)
    requires
        hi <= p.len(),
        hi <= q.len(),
        forall|k: int| lo <= k < hi ==> p[k] == q[k],
    ensures
        last_sep(p, lo, hi) == last_sep(q, lo, hi),
    decreases hi - lo,
{
    if hi > lo && p[hi - 1] != '/' {
        lemma_last_sep_agree(p, q, lo, hi - 1);
    }
}

proof fn lemma_last_component_agree(p: Seq<char>, q: Seq<char>, lo: int, hi: int)
    requires
        0 <= lo <= hi,
        hi <= p.len(),
        hi <= q.len(),
        forall|k: int| lo <= k < hi ==> p[k] == q[k],
    ensures
        last_component(p, lo, hi) == last_component(q, lo, hi),
    decreases hi - lo,
{
    if hi > lo {
        lemma_last_sep_agree(p, q, lo, hi);
        lemma_last_sep_bounds(p, lo, hi);
        let s = last_sep(p, lo, hi) + 1;
        assert(p.subrange(s, hi) =~= q.subrange(s, hi));
        if is_skipped(p.subrange(s, hi)) && s != lo {
            lemma_last_component_agree(p, q, lo, s - 1);
        }
    }
}

/// The component that `join_of(base, name)` ends with, for a simple `name`.
proof fn lemma_join_last_component(base: Seq<char>, name: Seq<char>)
    requires
        is_simple_name(name),
    ensures
        ({
            let p = join_of(base, name);
            let m = p.len() - name.len();
            &&& p.subrange(m, p.len() as int) =~= name
            &&& body_start(p) <= m
            &&& last_component(p, body_start(p), p.len() as int) == Some((m, p.len() as int))
        }),
{
    let p = join_of(base, name);
    let m = p.len() - name.len();
    assert(!has_root(name));
    assert(p.subrange(m, p.len() as int) =~= name);
    if base.len() == 0 {
        assert(p =~= name);
        assert(!has_cur_dir_prefix(p)) by {
            if has_cur_dir_prefix(p) {
                if p.len() == 1 {
                    assert(p =~= seq!['.']);
                } else {
                    assert(p[1] == '/');
                }
            }
        }
    } else {
        assert(p[m - 1] == '/');
        assert(body_start(p) <= 1);
    }
    lemma_last_sep_at(p, body_start(p), p.len() as int, m);
    assert(!is_skipped(p.subrange(m, p.len() as int)));
}

/// Joining a simple name onto any base gives a path whose file name is that
/// name.
pub proof fn lemma_file_name_of_join(base: Seq<char>, name: Seq<char>)
    requires
        is_simple_name(name),
    ensures
        file_name_of(join_of(base, name)) == Some(name),
{
    lemma_join_last_component(base, name);
}

/// Joining a simple name onto any base gives a path whose parent is the
/// base without its trailing separators and `.` segments.
pub proof fn lemma_parent_of_join(base: Seq<char>, name: Seq<char>)
    requires
        is_simple_name(name),
    ensures
        parent_of(join_of(base, name)) == Some(trimmed_of(base)),
{
    let p = join_of(base, name);
    lemma_join_last_component(base, name);
    let bs = body_start(p);
    let m = p.len() - name.len();
    if base.len() == 0 {
        assert(m == 0);
        assert(p.subrange(0, 0) =~= base.subrange(0, 0));
    } else {
        let bl = base.len() as int;
        assert(!has_root(name));
        assert forall|k: int| 0 <= k < bl implies p[k] == base[k] by {}
        if base.last() == '/' {
            assert(m == bl);
        } else {
            assert(m == bl + 1);
            assert(p[bl] == '/');
        }
        assert(body_start(base) == bs);
        lemma_last_sep_bounds(base, bs, bl);
        if base.last() == '/' {
            assert(last_sep(base, bs, bl) == bl - 1 || bl - 1 < bs);
            if m > bs {
                assert(base.subrange(bl, bl).len() == 0);
                lemma_last_component_agree(p, base, bs, bl - 1);
                assert(last_component(base, bs, bl) == last_component(base, bs, bl - 1));
            }
        } else {
            lemma_last_component_agree(p, base, bs, bl);
        }
        lemma_last_component_bounds(base, bs, bl);
        assert(p.subrange(0, bs) =~= base.subrange(0, bs));
        match last_component(base, bs, bl) {
            Some((_, e)) => {
                assert(p.subrange(0, e) =~= base.subrange(0, e));
            },
            None => {},
        }
    }
}

/// The parent of a path is shorter than the path.
pub proof fn lemma_parent_shorter(p: Seq<char>)
    ensures
        parent_of(p) matches Some(q) ==> q.len() < p.len(),
{
    let bs = body_start(p);
    lemma_last_component_bounds(p, bs, p.len() as int);
    match last_component(p, bs, p.len() as int) {
        Some((s, e)) => {
            let before = if s > bs {
                s - 1
            } else {
                bs
            };
            lemma_last_component_bounds(p, bs, before);
        },
        None => {},
    }
}

/// The ancestors of `p`, nearest first: its parent, the parent of that, and
/// so on while there is one.
pub open spec fn ancestor_list(p: Seq<char>) -> Seq<Seq<char>>
    decreases p.len(),
{
    match parent_of(p) {
        Some(q) => {
            proof {
                lemma_parent_shorter(p);
            }
            seq![q] + ancestor_list(q)
        },
        None => Seq::empty(),
    }
}

/// The ancestors of `path`, nearest first.
pub fn ancestors(path: &str) -> (r: Vec<String>)
    ensures
        r.len() == ancestor_list(path@).len(),
        forall|i: int| 0 <= i < r.len() ==> #[trigger] r[i]@ == ancestor_list(path@)[i],
{
    let ghost all = ancestor_list(path@);
    let mut out: Vec<String> = Vec::new();
    let mut cur = String::from_str(path);
    loop
        invariant
            all == ancestor_list(path@),
            out.len() + ancestor_list(cur@).len() == all.len(),
            forall|i: int| 0 <= i < out.len() ==> #[trigger] out[i]@ == all[i],
            ancestor_list(cur@) =~= all.subrange(out.len() as int, all.len() as int),
        decreases cur@.len(),
    {
        proof {
            lemma_parent_shorter(cur@);
        }
        match parent(cur.as_str()) {
            Some(q) => {
                let ghost rest = ancestor_list(q@);
                assert(ancestor_list(cur@) == seq![q@] + rest);
                assert((seq![q@] + rest)[0] == q@);
                assert(all.subrange(out.len() as int, all.len() as int)[0] == all[out.len() as int]);
                assert(all[out.len() as int] == q@);
                let ghost sub = all.subrange(out.len() as int, all.len() as int);
                assert forall|k: int| 0 <= k < rest.len() implies rest[k] == all[out.len() + 1 + k] by {
                    assert((seq![q@] + rest)[k + 1] == rest[k]);
                    assert(sub[k + 1] == all[out.len() + 1 + k]);
                }
                assert(rest =~= all.subrange(out.len() + 1, all.len() as int));
                out.push(q.clone());
                cur = q;
            },
            None => {
                return out;
            },
        }
    }
}

proof fn lemma_last_dot_at(name: Seq<char>, hi: int, m: int)
    requires
        -1 <= m < hi <= name.len(),
        m >= 0 ==> name[m] == '.',
        forall|k: int| m < k < hi ==> name[k] != '.',
    ensures
        last_dot(name, hi) == m,
    decreases hi,
{
    if hi - 1 > m {
        lemma_last_dot_at(name, hi - 1, m);
    }
}

/// The stem of `n.e` is `n` whatever the extension `e` (free of dots) and
/// whatever dots `n` holds, as long as `n` is not empty.
pub proof fn lemma_stem_drops_extension(n: Seq<char>, e: Seq<char>)
    requires
        n.len() > 0,
        forall|k: int| 0 <= k < e.len() ==> e[k] != '.',
    ensures
        stem_of(n + seq!['.'] + e) == n,
{
    let name = n + seq!['.'] + e;
    assert forall|k: int| n.len() < k < name.len() implies name[k] != '.' by {
        assert(name[k] == e[k - n.len() - 1]);
    }
    lemma_last_dot_at(name, name.len() as int, n.len() as int);
    assert(name.subrange(0, n.len() as int) =~= n);
}

/// A name without a dot, or whose only dot leads it, is its own stem.
pub proof fn lemma_stem_without_extension(name: Seq<char>)
    requires
        forall|k: int| 0 < k < name.len() ==> name[k] != '.',
    ensures
        stem_of(name) == name,
{
    if name.len() > 0 && name[0] == '.' {
        lemma_last_dot_at(name, name.len() as int, 0);
    } else {
        lemma_last_dot_at(name, name.len() as int, -1);
    }
}

/// The stem of `base/n.e`, for a simple name `n.e`, is `n`.
pub proof fn lemma_file_stem_of_join(base: Seq<char>, n: Seq<char>, e: Seq<char>)
    requires
        n.len() > 0,
        forall|k: int| 0 <= k < e.len() ==> e[k] != '.',
        is_simple_name(n + seq!['.'] + e),
    ensures
        file_stem_of(join_of(base, n + seq!['.'] + e)) == Some(n),
{
    lemma_file_name_of_join(base, n + seq!['.'] + e);
    lemma_stem_drops_extension(n, e);
}

} // verus!
