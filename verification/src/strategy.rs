//! Resolve a strategy name or path into a runnable strategy kind.
//!
//! Paths are `/`-separated texts. The file system is read by the caller: the candidates to try
//! are computed here, the caller reports what each candidate is on disk, and the first one that
//! holds a runnable strategy wins.

use crate::error::{Error, ErrorKind};
use crate::text::{
    chars_of, file_name_of, last_component, path_extension, path_extension_text, string_of,
    to_lowercase, unicode_lowercase,
};
use vstd::prelude::*;

verus! {

/// Concrete strategy runtime inferred from the file system.
#[derive(Debug)]
pub enum ResolvedStrategy {
    /// Python script run with the configured Python executable.
    Python(String),
    /// C++ strategy directory compiled by CMake before launch.
    CmakeCpp(String),
    /// Already compiled executable, or script with its own shebang.
    Binary(String),
}

impl ResolvedStrategy {
    /// Short runtime label.
    pub open spec fn kind_name(self) -> Seq<char> {
        match self {
            ResolvedStrategy::Python(_) => "python"@,
            ResolvedStrategy::CmakeCpp(_) => "cmake-cpp"@,
            ResolvedStrategy::Binary(_) => "binary"@,
        }
    }

    /// The selected path.
    pub open spec fn path_of(self) -> Seq<char> {
        match self {
            ResolvedStrategy::Python(p) => p@,
            ResolvedStrategy::CmakeCpp(p) => p@,
            ResolvedStrategy::Binary(p) => p@,
        }
    }

    /// Short runtime label for UI and diagnostics.
    pub fn kind(&self) -> (r: &'static str)
        ensures
            r@ == self.kind_name(),
    {
        match self {
            ResolvedStrategy::Python(_) => "python",
            ResolvedStrategy::CmakeCpp(_) => "cmake-cpp",
            ResolvedStrategy::Binary(_) => "binary",
        }
    }

    /// File-system path that was selected.
    pub fn path(&self) -> (r: &str)
        ensures
            r@ == self.path_of(),
    {
        match self {
            ResolvedStrategy::Python(p) => p.as_str(),
            ResolvedStrategy::CmakeCpp(p) => p.as_str(),
            ResolvedStrategy::Binary(p) => p.as_str(),
        }
    }
}

/// `b` appended to `a` as a path: an absolute `b` replaces `a`; a separator is added unless `a`
/// is empty or already ends with one.
pub open spec fn join_path(a: Seq<char>, b: Seq<char>) -> Seq<char> {
    if b.len() > 0 && b[0] == '/' {
        b
    } else if a.len() == 0 {
        b
    } else if a.last() == '/' {
        a + b
    } else {
        a + "/"@ + b
    }
}

/// `b` appended to `a` as a path.
pub fn join_path_text(a: &str, b: &str) -> (r: String)
    ensures
        r@ == join_path(a@, b@),
{
    proof {
        reveal_strlit("/");
    }
    let ac = chars_of(a);
    let bc = chars_of(b);
    if bc.len() > 0 && bc[0] == '/' {
        return b.to_owned();
    }
    if ac.len() == 0 {
        return b.to_owned();
    }
    let mut s = a.to_owned();
    if ac[ac.len() - 1] != '/' {
        s.append("/");
    }
    s.append(b);
    s
}

/// The texts between `/` separators, in order (an empty text between two adjacent
/// separators, before a leading one and after a trailing one).
pub open spec fn split_slash(s: Seq<char>) -> Seq<Seq<char>>
    decreases s.len(),
{
    if s.len() == 0 {
        seq![Seq::empty()]
    } else {
        let p = split_slash(s.drop_last());
        if s.last() == '/' {
            p.push(Seq::empty())
        } else {
            p.update(p.len() - 1, p.last().push(s.last()))
        }
    }
}

proof fn lemma_split_nonempty(s: Seq<char>)
    ensures
        split_slash(s).len() >= 1,
    decreases s.len(),
{
    if s.len() > 0 {
        lemma_split_nonempty(s.drop_last());
    }
}

/// The segments of a path.
pub fn split_slash_text(s: &[char]) -> (r: Vec<Vec<char>>)
    ensures
        r@.len() == split_slash(s@).len(),
        forall|k: int| 0 <= k < r@.len() ==> (#[trigger] r@[k])@ == split_slash(s@)[k],
{
    let mut out: Vec<Vec<char>> = Vec::new();
    let mut cur: Vec<char> = Vec::new();
    let mut i: usize = 0;
    while i < s.len()
        invariant
            i <= s@.len(),
            out@.len() + 1 == split_slash(s@.subrange(0, i as int)).len(),
            forall|k: int|
                0 <= k < out@.len() ==> (#[trigger] out@[k])@ == split_slash(
                    s@.subrange(0, i as int),
                )[k],
            cur@ == split_slash(s@.subrange(0, i as int)).last(),
        decreases s@.len() - i,
    {
        proof {
            let t = s@.subrange(0, i as int + 1);
            assert(t.drop_last() =~= s@.subrange(0, i as int));
            lemma_split_nonempty(s@.subrange(0, i as int));
        }
        if s[i] == '/' {
            let done = cur;
            out.push(done);
            cur = Vec::new();
        } else {
            cur.push(s[i]);
        }
        i = i + 1;
    }
    proof {
        assert(s@.subrange(0, s@.len() as int) =~= s@);
    }
    out.push(cur);
    out
}

/// A segment that names a directory entry (not empty, `.` or `..`).
pub open spec fn is_normal_segment(seg: Seq<char>) -> bool {
    seg.len() > 0 && seg != "."@ && seg != ".."@
}

/// The named segments among the first `n`, in order.
pub open spec fn normal_parts(segs: Seq<Seq<char>>, n: int) -> Seq<Seq<char>>
    decreases n,
{
    if n <= 0 {
        Seq::empty()
    } else {
        let p = normal_parts(segs, n - 1);
        if is_normal_segment(segs[n - 1]) {
            p.push(segs[n - 1])
        } else {
            p
        }
    }
}

/// The named components of a path, in order.
pub open spec fn path_parts(s: Seq<char>) -> Seq<Seq<char>> {
    normal_parts(split_slash(s), split_slash(s).len() as int)
}

/// Number of components among the first `n` segments that are not empty or `.`.
pub open spec fn counted_segments(segs: Seq<Seq<char>>, n: int) -> int
    decreases n,
{
    if n <= 0 {
        0
    } else {
        counted_segments(segs, n - 1) + if segs[n - 1].len() > 0 && segs[n - 1] != "."@ {
            1int
        } else {
            0int
        }
    }
}

/// The path starts at the root.
pub open spec fn rooted(s: Seq<char>) -> bool {
    s.len() > 0 && s[0] == '/'
}

/// Number of components of a path: the root, a leading `.`, and every segment that is not
/// empty or `.`.
pub open spec fn component_count(s: Seq<char>) -> int {
    let segs = split_slash(s);
    (if rooted(s) {
        1int
    } else {
        0int
    }) + (if !rooted(s) && segs[0] == "."@ {
        1int
    } else {
        0int
    }) + counted_segments(segs, segs.len() as int)
}

/// A bare strategy name: a relative path of one component.
pub open spec fn strategy_name(s: Seq<char>) -> bool {
    !rooted(s) && component_count(s) == 1
}

/// Whether two character sequences hold the same text.
fn chars_same(a: &Vec<char>, b: &str) -> (r: bool)
    ensures
        r == (a@ == b@),
{
    crate::text::chars_eq(a, b)
}

/// The named components of a path.
pub fn path_parts_text(s: &str) -> (r: Vec<Vec<char>>)
    ensures
        r@.len() == path_parts(s@).len(),
        forall|k: int| 0 <= k < r@.len() ==> (#[trigger] r@[k])@ == path_parts(s@)[k],
{
    let cs = chars_of(s);
    let segs = split_slash_text(&cs);
    let ghost sp = split_slash(s@);
    let mut out: Vec<Vec<char>> = Vec::new();
    let mut i: usize = 0;
    while i < segs.len()
        invariant
            sp == split_slash(s@),
            segs@.len() == sp.len(),
            forall|k: int| 0 <= k < segs@.len() ==> (#[trigger] segs@[k])@ == sp[k],
            i <= segs@.len(),
            out@.len() == normal_parts(sp, i as int).len(),
            forall|k: int|
                0 <= k < out@.len() ==> (#[trigger] out@[k])@ == normal_parts(sp, i as int)[k],
        decreases segs@.len() - i,
    {
        let seg = &segs[i];
        assert(seg@ == sp[i as int]);
        let normal = seg.len() > 0 && !chars_same(seg, ".") && !chars_same(seg, "..");
        if normal {
            out.push(seg.clone());
            assert(out@.last()@ == seg@);
        }
        i = i + 1;
    }
    out
}

/// Whether the path is a bare strategy name.
pub fn is_strategy_name(s: &str) -> (r: bool)
    ensures
        r == strategy_name(s@),
{
    let cs = chars_of(s);
    let segs = split_slash_text(&cs);
    proof {
        lemma_split_nonempty(s@);
    }
    let root = cs.len() > 0 && cs[0] == '/';
    let mut count: u128 = 0;
    if root {
        count = 1;
    } else if chars_same(&segs[0], ".") {
        count = 1;
    }
    let ghost sp = split_slash(s@);
    let mut i: usize = 0;
    while i < segs.len()
        invariant
            sp == split_slash(s@),
            segs@.len() == sp.len(),
            sp.len() >= 1,
            forall|k: int| 0 <= k < segs@.len() ==> (#[trigger] segs@[k])@ == sp[k],
            i <= segs@.len(),
            count as int == (if rooted(s@) {
                1int
            } else {
                0int
            }) + (if !rooted(s@) && sp[0] == "."@ {
                1int
            } else {
                0int
            }) + counted_segments(sp, i as int),
            count <= i + 2,
        decreases segs@.len() - i,
    {
        let seg = &segs[i];
        assert(seg@ == sp[i as int]);
        if seg.len() > 0 && !chars_same(seg, ".") {
            count = count + 1;
        }
        i = i + 1;
    }
    !root && count == 1
}

/// Index of the first component at or after `i` named `trading`.
pub open spec fn first_trading(parts: Seq<Seq<char>>, i: int) -> Option<int>
    decreases parts.len() - i,
{
    if i < 0 || i >= parts.len() {
        None
    } else if parts[i] == "trading"@ {
        Some(i)
    } else {
        first_trading(parts, i + 1)
    }
}

/// Where an old-layout strategy path lives now under `root`: `trading/strategies/NAME[/FILE]`
/// maps to `trading/NAME[/FILE]` and `trading/cpp/strategies/NAME[/FILE]` to
/// `trading/NAME_cpp[/FILE]`.
pub open spec fn legacy_of(root: Seq<char>, strategy: Seq<char>) -> Seq<Seq<char>> {
    let parts = path_parts(strategy);
    match first_trading(parts, 0) {
        None => Seq::empty(),
        Some(ix) => {
            let tail = parts.subrange(ix + 1, parts.len() as int);
            let tr = join_path(root, "trading"@);
            if tail.len() == 2 && tail[0] == "strategies"@ {
                seq![join_path(tr, tail[1])]
            } else if tail.len() == 3 && tail[0] == "strategies"@ {
                seq![join_path(join_path(tr, tail[1]), tail[2])]
            } else if tail.len() == 3 && tail[0] == "cpp"@ && tail[1] == "strategies"@ {
                seq![join_path(tr, tail[2] + "_cpp"@)]
            } else if tail.len() == 4 && tail[0] == "cpp"@ && tail[1] == "strategies"@ {
                seq![join_path(join_path(tr, tail[2] + "_cpp"@), tail[3])]
            } else {
                Seq::empty()
            }
        },
    }
}

/// The views of a sequence of texts.
pub open spec fn path_views(v: Seq<String>) -> Seq<Seq<char>> {
    v.map_values(|s: String| s@)
}

/// `a` then `b`, as one text.
fn concat2(a: &str, b: &str) -> (r: String)
    ensures
        r@ == a@ + b@,
{
    let mut s = a.to_owned();
    s.append(b);
    s
}

/// Old-layout locations of a strategy path under `root`.
pub fn legacy_candidates(root: &str, strategy: &str) -> (r: Vec<String>)
    ensures
        path_views(r@) == legacy_of(root@, strategy@),
{
    let parts = path_parts_text(strategy);
    let ghost pp = path_parts(strategy@);
    let mut ix: usize = 0;
    while ix < parts.len() && !chars_same(&parts[ix], "trading")
        invariant
            parts@.len() == pp.len(),
            forall|k: int| 0 <= k < parts@.len() ==> (#[trigger] parts@[k])@ == pp[k],
            ix <= parts@.len(),
            first_trading(pp, 0) == first_trading(pp, ix as int),
        decreases parts@.len() - ix,
    {
        ix = ix + 1;
    }
    let mut out: Vec<String> = Vec::new();
    if ix == parts.len() {
        assert(path_views(out@) =~= Seq::<Seq<char>>::empty());
        return out;
    }
    assert(first_trading(pp, 0) == Some(ix as int));
    let ghost tail = pp.subrange(ix as int + 1, pp.len() as int);
    let n = parts.len() - ix - 1;
    let tr = join_path_text(root, "trading");
    let t0 = if n >= 1 {
        string_of(&parts[ix + 1])
    } else {
        String::new()
    };
    let t1 = if n >= 2 {
        string_of(&parts[ix + 2])
    } else {
        String::new()
    };
    let t2 = if n >= 3 {
        string_of(&parts[ix + 3])
    } else {
        String::new()
    };
    let t3 = if n >= 4 {
        string_of(&parts[ix + 4])
    } else {
        String::new()
    };
    proof {
        if n >= 1 {
            assert(t0@ == tail[0]);
        }
        if n >= 2 {
            assert(t1@ == tail[1]);
        }
        if n >= 3 {
            assert(t2@ == tail[2]);
        }
        if n >= 4 {
            assert(t3@ == tail[3]);
        }
    }
    let strategies = crate::text::str_eq(t0.as_str(), "strategies");
    let cpp = crate::text::str_eq(t0.as_str(), "cpp") && crate::text::str_eq(
        t1.as_str(),
        "strategies",
    );
    if n == 2 && strategies {
        out.push(join_path_text(tr.as_str(), t1.as_str()));
    } else if n == 3 && strategies {
        let d = join_path_text(tr.as_str(), t1.as_str());
        out.push(join_path_text(d.as_str(), t2.as_str()));
    } else if n == 3 && cpp {
        let name = concat2(t2.as_str(), "_cpp");
        out.push(join_path_text(tr.as_str(), name.as_str()));
    } else if n == 4 && cpp {
        let name = concat2(t2.as_str(), "_cpp");
        let d = join_path_text(tr.as_str(), name.as_str());
        out.push(join_path_text(d.as_str(), t3.as_str()));
    }
    proof {
        assert(path_views(out@) =~= legacy_of(root@, strategy@));
    }
    out
}

/// `\\` separators turned into `/`.
pub open spec fn forward_slashes(p: Seq<char>) -> Seq<char> {
    p.map_values(|c: char| if c == '\\' { '/' } else { c })
}

/// Key under which two candidate paths count as the same: forward slashes, lower case.
pub open spec fn dedup_key(p: Seq<char>) -> Seq<char> {
    unicode_lowercase(forward_slashes(p))
}

/// Key under which two candidate paths count as the same.
pub fn normalize_for_dedup(path: &str) -> (r: String)
    ensures
        r@ == dedup_key(path@),
{
    let cs = chars_of(path);
    let mut out: Vec<char> = Vec::new();
    let mut i: usize = 0;
    while i < cs.len()
        invariant
            cs@ == path@,
            i <= cs@.len(),
            out@ == forward_slashes(path@.subrange(0, i as int)),
        decreases cs@.len() - i,
    {
        let c = cs[i];
        out.push(if c == '\\' { '/' } else { c });
        i = i + 1;
        assert(out@ =~= forward_slashes(path@.subrange(0, i as int)));
    }
    assert(path@.subrange(0, cs@.len() as int) =~= path@);
    let t = string_of(&out);
    to_lowercase(t.as_str())
}

/// Parent directory of an absolute path with a file name: the text before its last component,
/// without trailing separators or `.` components (the root when nothing else is left).
pub open spec fn parent_of(s: Seq<char>) -> Seq<char> {
    match last_component(s, s.len() as int) {
        Some((k, _)) => match last_component(s, k) {
            Some((_, e)) => s.subrange(0, e),
            None => "/"@,
        },
        None => "/"@,
    }
}

/// The `trading` directory beside an absolute strategy path, which the caller checks for.
pub open spec fn parent_trading_of(s: Seq<char>) -> Option<Seq<char>> {
    if rooted(s) && file_name_of(s).is_some() {
        Some(join_path(parent_of(s), "trading"@))
    } else {
        None
    }
}

/// Candidates under one project root.
pub open spec fn root_candidates(root: Seq<char>, strategy: Seq<char>, parent_has_trading: bool) -> Seq<
    Seq<char>,
> {
    let main = if !rooted(strategy) {
        seq![join_path(root, strategy)] + if strategy_name(strategy) {
            seq![join_path(join_path(root, "trading"@), strategy)]
        } else {
            Seq::empty()
        }
    } else {
        match file_name_of(strategy) {
            Some(name) => if parent_has_trading {
                seq![join_path(join_path(parent_of(strategy), "trading"@), name)]
            } else {
                Seq::empty()
            },
            None => Seq::empty(),
        }
    };
    main + legacy_of(root, strategy)
}

/// Candidates under the first `n` project roots, root by root.
pub open spec fn roots_candidates(
    roots: Seq<Seq<char>>,
    strategy: Seq<char>,
    parent_has_trading: bool,
    n: int,
) -> Seq<Seq<char>>
    decreases n,
{
    if n <= 0 {
        Seq::empty()
    } else {
        roots_candidates(roots, strategy, parent_has_trading, n - 1) + root_candidates(
            roots[n - 1],
            strategy,
            parent_has_trading,
        )
    }
}

/// Every candidate in the order tried: the path itself, the path under the working directory
/// when it is relative, then the candidates under each project root.
pub open spec fn raw_candidates(
    strategy: Seq<char>,
    cwd: Option<Seq<char>>,
    roots: Seq<Seq<char>>,
    parent_has_trading: bool,
) -> Seq<Seq<char>> {
    seq![strategy] + match cwd {
        Some(c) => if !rooted(strategy) {
            seq![join_path(c, strategy)]
        } else {
            Seq::empty()
        },
        None => Seq::empty(),
    } + roots_candidates(roots, strategy, parent_has_trading, roots.len() as int)
}

/// The first `n` candidates without repeats: a candidate whose key an earlier one has is
/// dropped.
pub open spec fn dedup_paths(raw: Seq<Seq<char>>, n: int) -> Seq<Seq<char>>
    decreases n,
{
    if n <= 0 {
        Seq::empty()
    } else {
        let d = dedup_paths(raw, n - 1);
        if exists|j: int| 0 <= j < d.len() && dedup_key(#[trigger] d[j]) == dedup_key(raw[n - 1]) {
            d
        } else {
            d.push(raw[n - 1])
        }
    }
}

/// No two kept paths share a dedup key, and every path offered is covered by a kept one.
pub proof fn law_dedup_paths_distinct(raw: Seq<Seq<char>>, n: int)
    requires
        0 <= n <= raw.len(),
    ensures
        forall|i: int, j: int|
            0 <= i < j < dedup_paths(raw, n).len() ==> dedup_key(#[trigger] dedup_paths(raw, n)[i])
                != dedup_key(#[trigger] dedup_paths(raw, n)[j]),
        forall|k: int|
            0 <= k < n ==> exists|j: int|
                0 <= j < dedup_paths(raw, n).len() && dedup_key(#[trigger] dedup_paths(raw, n)[j])
                    == dedup_key(#[trigger] raw[k]),
    decreases n,
{
    if n > 0 {
        law_dedup_paths_distinct(raw, n - 1);
        let d = dedup_paths(raw, n - 1);
        if !(exists|j: int| 0 <= j < d.len() && dedup_key(#[trigger] d[j]) == dedup_key(raw[n - 1])) {
            let e = d.push(raw[n - 1]);
            assert(dedup_paths(raw, n) == e);
            assert forall|k: int| 0 <= k < n implies exists|j: int|
                0 <= j < e.len() && dedup_key(#[trigger] e[j]) == dedup_key(#[trigger] raw[k]) by {
                if k == n - 1 {
                    assert(e[d.len() as int] == raw[n - 1]);
                } else {
                    let j = choose|j: int| 0 <= j < d.len() && dedup_key(#[trigger] d[j]) == dedup_key(raw[k]);
                    assert(e[j] == d[j]);
                }
            }
        } else {
            assert(dedup_paths(raw, n) == d);
        }
    }
}

/// The candidates to try, in order, without repeats.
pub open spec fn candidates_of(
    strategy: Seq<char>,
    cwd: Option<Seq<char>>,
    roots: Seq<Seq<char>>,
    parent_has_trading: bool,
) -> Seq<Seq<char>> {
    let raw = raw_candidates(strategy, cwd, roots, parent_has_trading);
    dedup_paths(raw, raw.len() as int)
}

/// The `trading` directory beside an absolute strategy path, if the candidates look there.
pub fn parent_trading_dir(strategy: &str) -> (r: Option<String>)
    ensures
        match r {
            Some(p) => parent_trading_of(strategy@) == Some(p@),
            None => parent_trading_of(strategy@).is_none(),
        },
{
    let cs = chars_of(strategy);
    if !(cs.len() > 0 && cs[0] == '/') {
        return None;
    }
    match parent_text(&cs) {
        Some(parent) => Some(join_path_text(parent.as_str(), "trading")),
        None => None,
    }
}

/// Parent of an absolute path that has a file name.
fn parent_text(cs: &Vec<char>) -> (r: Option<String>)
    requires
        rooted(cs@),
    ensures
        match r {
            Some(p) => file_name_of(cs@).is_some() && p@ == parent_of(cs@),
            None => file_name_of(cs@).is_none(),
        },
{
    let s = string_of(cs);
    proof {
        reveal_strlit("/");
    }
    match path_extension_bounds(cs) {
        Some((k, e2)) => {
            let name_ok = crate::text::file_name_text(s.as_str()).is_some();
            if !name_ok {
                return None;
            }
            match e2 {
                Some(e) => Some(string_of(&crate::text::slice_chars(cs, 0, e))),
                None => Some("/".to_owned()),
            }
        },
        None => None,
    }
}

/// Start of the last component, and the end of the component before it.
fn path_extension_bounds(cs: &Vec<char>) -> (r: Option<(usize, Option<usize>)>)
    ensures
        match r {
            Some((k, e2)) => (last_component(cs@, cs@.len() as int) matches Some((kk, _)) && kk
                == k) && match e2 {
                Some(e) => last_component(cs@, k as int) matches Some((_, ee)) && ee == e,
                None => last_component(cs@, k as int).is_none(),
            },
            None => last_component(cs@, cs@.len() as int).is_none(),
        },
        r matches Some((k, e2)) ==> k <= cs@.len() && (e2 matches Some(e) ==> e <= k),
{
    let k = match crate::text::last_component_bounds(cs, cs.len()) {
        Some((k, _)) => k,
        None => {
            return None;
        },
    };
    match crate::text::last_component_bounds(cs, k) {
        Some((_, e)) => Some((k, Some(e))),
        None => Some((k, None)),
    }
}

/// Candidates under one project root.
fn root_candidates_text(root: &str, strategy: &str, parent_has_trading: bool) -> (r: Vec<String>)
    ensures
        path_views(r@) == root_candidates(root@, strategy@, parent_has_trading),
{
    let cs = chars_of(strategy);
    let mut out: Vec<String> = Vec::new();
    if !(cs.len() > 0 && cs[0] == '/') {
        out.push(join_path_text(root, strategy));
        if is_strategy_name(strategy) {
            let tr = join_path_text(root, "trading");
            out.push(join_path_text(tr.as_str(), strategy));
        }
    } else {
        match crate::text::file_name_text(strategy) {
            Some(name) => {
                if parent_has_trading {
                    match parent_text(&cs) {
                        Some(parent) => {
                            let tr = join_path_text(parent.as_str(), "trading");
                            let n = string_of(&name);
                            out.push(join_path_text(tr.as_str(), n.as_str()));
                        },
                        None => {},
                    }
                }
            },
            None => {},
        }
    }
    let ghost main = path_views(out@);
    let mut legacy = legacy_candidates(root, strategy);
    let ghost lv = path_views(legacy@);
    out.append(&mut legacy);
    proof {
        assert(path_views(out@) =~= main + lv);
        assert(main =~= if !rooted(strategy@) {
            seq![join_path(root@, strategy@)] + if strategy_name(strategy@) {
                seq![join_path(join_path(root@, "trading"@), strategy@)]
            } else {
                Seq::empty()
            }
        } else {
            match file_name_of(strategy@) {
                Some(name) => if parent_has_trading {
                    seq![join_path(join_path(parent_of(strategy@), "trading"@), name)]
                } else {
                    Seq::empty()
                },
                None => Seq::empty(),
            }
        });
    }
    out
}

/// Whether a key is among `keys`.
fn key_seen(keys: &Vec<String>, key: &String) -> (r: bool)
    ensures
        r == path_views(keys@).contains(key@),
{
    let mut i: usize = 0;
    while i < keys.len()
        invariant
            i <= keys@.len(),
            forall|j: int| 0 <= j < i ==> (#[trigger] keys@[j])@ != key@,
        decreases keys@.len() - i,
    {
        if keys[i] == *key {
            assert(path_views(keys@)[i as int] == key@);
            return true;
        }
        i = i + 1;
    }
    proof {
        if path_views(keys@).contains(key@) {
            let j = choose|j: int| 0 <= j < keys@.len() && #[trigger] path_views(keys@)[j] == key@;
            assert(keys@[j]@ != key@);
        }
    }
    false
}

/// The candidates to try for a strategy name or path, in order and without repeats, given the
/// working directory, the project roots (directories holding `trading/`) and whether the
/// `trading` directory beside an absolute path exists.
pub fn strategy_candidates(
    strategy: &str,
    cwd: Option<&str>,
    roots: &Vec<String>,
    parent_has_trading: bool,
) -> (r: Vec<String>)
    ensures
        path_views(r@) == candidates_of(
            strategy@,
            match cwd {
                Some(c) => Some(c@),
                None => None,
            },
            path_views(roots@),
            parent_has_trading,
        ),
{
    let ghost cwdv = match cwd {
        Some(c) => Some(c@),
        None => None::<Seq<char>>,
    };
    let ghost rootsv = path_views(roots@);
    let cs = chars_of(strategy);
    let relative = !(cs.len() > 0 && cs[0] == '/');
    let mut raw: Vec<String> = Vec::new();
    raw.push(strategy.to_owned());
    match cwd {
        Some(c) => {
            if relative {
                raw.push(join_path_text(c, strategy));
            }
        },
        None => {},
    }
    let ghost head = path_views(raw@);
    proof {
        assert(head =~= seq![strategy@] + match cwdv {
            Some(c) => if !rooted(strategy@) {
                seq![join_path(c, strategy@)]
            } else {
                Seq::empty()
            },
            None => Seq::empty(),
        });
    }
    let mut i: usize = 0;
    while i < roots.len()
        invariant
            rootsv == path_views(roots@),
            i <= roots@.len(),
            path_views(raw@) == head + roots_candidates(rootsv, strategy@, parent_has_trading, i as int),
        decreases roots@.len() - i,
    {
        let ghost before = path_views(raw@);
        let mut rc = root_candidates_text(roots[i].as_str(), strategy, parent_has_trading);
        let ghost rcv = path_views(rc@);
        raw.append(&mut rc);
        proof {
            assert(rootsv[i as int] == roots@[i as int]@);
            assert(path_views(raw@) =~= before + rcv);
            assert(head + roots_candidates(rootsv, strategy@, parent_has_trading, i as int + 1)
                =~= head + roots_candidates(rootsv, strategy@, parent_has_trading, i as int)
                + rcv);
        }
        i = i + 1;
    }
    let ghost rawv = path_views(raw@);
    proof {
        assert(rawv =~= raw_candidates(strategy@, cwdv, rootsv, parent_has_trading));
    }
    dedup_by_key(&raw)
}

/// Paths without repeats, in order: a path whose key an earlier one has is dropped.
pub fn dedup_by_key(raw: &Vec<String>) -> (r: Vec<String>)
    ensures
        path_views(r@) == dedup_paths(path_views(raw@), raw@.len() as int),
{
    let ghost rawv = path_views(raw@);
    let mut out: Vec<String> = Vec::new();
    let mut keys: Vec<String> = Vec::new();
    let mut j: usize = 0;
    while j < raw.len()
        invariant
            rawv == path_views(raw@),
            j <= raw@.len(),
            path_views(out@) == dedup_paths(rawv, j as int),
            keys@.len() == out@.len(),
            forall|q: int| 0 <= q < keys@.len() ==> (#[trigger] keys@[q])@ == dedup_key(out@[q]@),
        decreases raw@.len() - j,
    {
        let key = normalize_for_dedup(raw[j].as_str());
        let seen = key_seen(&keys, &key);
        let ghost d = dedup_paths(rawv, j as int);
        proof {
            assert(rawv[j as int] == raw@[j as int]@);
            if seen {
                let q = choose|q: int| 0 <= q < keys@.len() && #[trigger] path_views(keys@)[q] == key@;
                assert(d[q] == out@[q]@);
                assert(dedup_key(d[q]) == dedup_key(rawv[j as int]));
            } else {
                assert forall|q: int| 0 <= q < d.len() implies dedup_key(#[trigger] d[q])
                    != dedup_key(rawv[j as int]) by {
                    assert(d[q] == out@[q]@);
                    assert(path_views(keys@)[q] == keys@[q]@);
                }
            }
        }
        if !seen {
            out.push(raw[j].clone());
            keys.push(key);
            proof {
                assert(path_views(out@) =~= d.push(rawv[j as int]));
            }
        }
        j = j + 1;
    }
    out
}

/// Project roots without repeats: the ancestors of the working directory that hold `trading/`,
/// then those of the crate directory, as the caller found them.
pub fn project_roots(cwd_roots: &Vec<String>, manifest_roots: &Vec<String>) -> (r: Vec<String>)
    ensures
        path_views(r@) == dedup_paths(
            path_views(cwd_roots@) + path_views(manifest_roots@),
            (cwd_roots@.len() + manifest_roots@.len()) as int,
        ),
{
    let mut all: Vec<String> = Vec::new();
    let mut i: usize = 0;
    while i < cwd_roots.len()
        invariant
            i <= cwd_roots@.len(),
            all@.len() == i,
            forall|k: int| 0 <= k < i ==> (#[trigger] all@[k]) == cwd_roots@[k],
        decreases cwd_roots@.len() - i,
    {
        all.push(cwd_roots[i].clone());
        i = i + 1;
    }
    let n = cwd_roots.len();
    let mut j: usize = 0;
    while j < manifest_roots.len()
        invariant
            n == cwd_roots@.len(),
            j <= manifest_roots@.len(),
            all@.len() == n + j,
            forall|k: int| 0 <= k < n ==> (#[trigger] all@[k]) == cwd_roots@[k],
            forall|k: int| 0 <= k < j ==> (#[trigger] all@[n + k]) == manifest_roots@[k],
        decreases manifest_roots@.len() - j,
    {
        all.push(manifest_roots[j].clone());
        j = j + 1;
        assert(all@[n + (j - 1)] == all@[(n + j - 1) as int]);
    }
    proof {
        let a = path_views(all@);
        let b = path_views(cwd_roots@) + path_views(manifest_roots@);
        assert forall|k: int| 0 <= k < a.len() implies a[k] == b[k] by {
            if k < n {
                assert(all@[k] == cwd_roots@[k]);
            } else {
                assert(all@[n + (k - n)] == manifest_roots@[k - n]);
            }
        }
        assert(a =~= b);
    }
    dedup_by_key(&all)
}

/// What a candidate path is on disk.
#[derive(Clone, Copy, Debug, PartialEq, Eq, Structural)]
pub enum PathKind {
    Missing,
    File,
    Dir,
}

/// What the caller found at a candidate: the candidate itself, and whether `CMakeLists.txt`,
/// `strategy.py` and `main.py` inside it are files.
#[derive(Clone, Copy, Debug)]
pub struct PathProbe {
    pub kind: PathKind,
    pub cmake_file: bool,
    pub strategy_py_file: bool,
    pub main_py_file: bool,
}

/// The paths inside a candidate that detection looks at: `CMakeLists.txt`, `strategy.py`,
/// `main.py`.
pub fn detect_probe_paths(path: &str) -> (r: (String, String, String))
    ensures
        r.0@ == join_path(path@, "CMakeLists.txt"@),
        r.1@ == join_path(path@, "strategy.py"@),
        r.2@ == join_path(path@, "main.py"@),
{
    (
        join_path_text(path, "CMakeLists.txt"),
        join_path_text(path, "strategy.py"),
        join_path_text(path, "main.py"),
    )
}

/// Runtime label and path detected at a candidate: a directory with `CMakeLists.txt` is a CMake
/// C++ strategy; else its `strategy.py`, else its `main.py`, is a Python strategy; a `.py` file
/// is a Python strategy and any other file a binary.
pub open spec fn detect_of(path: Seq<char>, probe: PathProbe) -> Option<(Seq<char>, Seq<char>)> {
    match probe.kind {
        PathKind::Dir => if probe.cmake_file {
            Some(("cmake-cpp"@, path))
        } else if probe.strategy_py_file {
            Some(("python"@, join_path(path, "strategy.py"@)))
        } else if probe.main_py_file {
            Some(("python"@, join_path(path, "main.py"@)))
        } else {
            None
        },
        PathKind::File => if path_extension(path) == Some("py"@) {
            Some(("python"@, path))
        } else {
            Some(("binary"@, path))
        },
        PathKind::Missing => None,
    }
}

/// `r` is the strategy `d` describes.
pub open spec fn strategy_is(r: Option<ResolvedStrategy>, d: Option<(Seq<char>, Seq<char>)>) -> bool {
    match (r, d) {
        (Some(s), Some((k, p))) => s.kind_name() == k && s.path_of() == p,
        (None, None) => true,
        _ => false,
    }
}

/// Detect the strategy type at a candidate from what is on disk there.
pub fn detect_strategy(path: &str, probe: &PathProbe) -> (r: Option<ResolvedStrategy>)
    ensures
        strategy_is(r, detect_of(path@, *probe)),
{
    match probe.kind {
        PathKind::Dir => {
            if probe.cmake_file {
                Some(ResolvedStrategy::CmakeCpp(path.to_owned()))
            } else if probe.strategy_py_file {
                Some(ResolvedStrategy::Python(join_path_text(path, "strategy.py")))
            } else if probe.main_py_file {
                Some(ResolvedStrategy::Python(join_path_text(path, "main.py")))
            } else {
                None
            }
        },
        PathKind::File => {
            let py = match path_extension_text(path) {
                Some(e) => chars_same(&e, "py"),
                None => false,
            };
            if py {
                Some(ResolvedStrategy::Python(path.to_owned()))
            } else {
                Some(ResolvedStrategy::Binary(path.to_owned()))
            }
        },
        PathKind::Missing => None,
    }
}

/// The first detection among the candidates from `i` on.
pub open spec fn first_detected(cands: Seq<Seq<char>>, probes: Seq<PathProbe>, i: int) -> Option<
    (Seq<char>, Seq<char>),
>
    decreases cands.len() - i,
{
    if i < 0 || i >= cands.len() {
        None
    } else {
        match detect_of(cands[i], probes[i]) {
            Some(d) => Some(d),
            None => first_detected(cands, probes, i + 1),
        }
    }
}

/// The text of the error when no candidate holds a strategy.
pub open spec fn no_strategy_text(strategy: Seq<char>) -> Seq<char> {
    "no runnable strategy found for "@ + strategy
        + ". Expected a strategy name under trading/, a directory with CMakeLists.txt, a directory with strategy.py/main.py, a .py file, or a compiled binary"@
}

/// Deduplication keeps the first path offered in front.
proof fn lemma_dedup_keeps_first(raw: Seq<Seq<char>>, n: int)
    requires
        1 <= n <= raw.len(),
    ensures
        dedup_paths(raw, n).len() >= 1,
        dedup_paths(raw, n)[0] == raw[0],
    decreases n,
{
    if n > 1 {
        lemma_dedup_keeps_first(raw, n - 1);
    } else {
        assert(dedup_paths(raw, 0).len() == 0);
    }
}

/// The given path is tried first: when its own probe shows a runnable strategy, that is what
/// resolution finds, whatever the other candidates hold.
pub proof fn law_given_path_tried_first(
    strategy: Seq<char>,
    cwd: Option<Seq<char>>,
    roots: Seq<Seq<char>>,
    parent_has_trading: bool,
    probes: Seq<PathProbe>,
)
    requires
        probes.len() == candidates_of(strategy, cwd, roots, parent_has_trading).len(),
    ensures
        candidates_of(strategy, cwd, roots, parent_has_trading).len() >= 1,
        candidates_of(strategy, cwd, roots, parent_has_trading)[0] == strategy,
        detect_of(strategy, probes[0]) is Some ==> first_detected(
            candidates_of(strategy, cwd, roots, parent_has_trading),
            probes,
            0,
        ) == detect_of(strategy, probes[0]),
{
    let raw = raw_candidates(strategy, cwd, roots, parent_has_trading);
    assert(raw[0] == strategy);
    lemma_dedup_keeps_first(raw, raw.len() as int);
}

/// Resolve a strategy: the first candidate, in order, whose probe shows a runnable strategy.
pub fn resolve_strategy_path(strategy: &str, candidates: &Vec<String>, probes: &Vec<PathProbe>) -> (r:
    Result<ResolvedStrategy, Error>)
    requires
        probes@.len() == candidates@.len(),
    ensures
        match r {
            Ok(s) => strategy_is(Some(s), first_detected(path_views(candidates@), probes@, 0)),
            Err(e) => first_detected(path_views(candidates@), probes@, 0).is_none() && e.failure()
                == (ErrorKind::Invalid, no_strategy_text(strategy@)),
        },
{
    let ghost cv = path_views(candidates@);
    let mut i: usize = 0;
    while i < candidates.len()
        invariant
            cv == path_views(candidates@),
            probes@.len() == candidates@.len(),
            i <= candidates@.len(),
            first_detected(cv, probes@, 0) == first_detected(cv, probes@, i as int),
        decreases candidates@.len() - i,
    {
        assert(cv[i as int] == candidates@[i as int]@);
        match detect_strategy(candidates[i].as_str(), &probes[i]) {
            Some(s) => {
                return Ok(s);
            },
            None => {},
        }
        i = i + 1;
    }
    let mut m = String::new();
    m.append("no runnable strategy found for ");
    m.append(strategy);
    m.append(
        ". Expected a strategy name under trading/, a directory with CMakeLists.txt, a directory with strategy.py/main.py, a .py file, or a compiled binary",
    );
    Err(Error::Invalid(m))
}

} // verus!
