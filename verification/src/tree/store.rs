//! Stored names of enum fields, archive paths, sibling order and the
//! id-to-directory index of the file-tree store.

use vstd::prelude::*;
use vstd::string::StrSliceExecFns;
use vstd::string::StringExecFns;

use crate::entities::session::title_source_name;
use crate::entities::surface::surface_kind_name;
use crate::entities::{SourceKind, SurfaceKind, TitleSource};
use crate::error::{OrchestratorError, Result};
use crate::strmap::StringMap;
use crate::sort::{sort_positions_num, stably_sorted_num};
use crate::text::str_equal;

verus! {

/// The name of the directory that holds archived entries.
pub const ARCHIVE_DIR: &'static str = ".archive";

/// The stored name of a source kind.
pub fn source_kind_str(k: SourceKind) -> (r: &'static str)
    ensures
        r@ == (match k {
            SourceKind::Blank => "blank"@,
            SourceKind::LocalDir => "local_dir"@,
            SourceKind::GitRepo => "git_repo"@,
        }),
{
    match k {
        SourceKind::Blank => "blank",
        SourceKind::LocalDir => "local_dir",
        SourceKind::GitRepo => "git_repo",
    }
}

/// The source kind a stored name denotes, if any.
pub open spec fn spec_source_kind_of(s: Seq<char>) -> Option<SourceKind> {
    if s == "blank"@ {
        Some(SourceKind::Blank)
    } else if s == "local_dir"@ {
        Some(SourceKind::LocalDir)
    } else if s == "git_repo"@ {
        Some(SourceKind::GitRepo)
    } else {
        None
    }
}

/// `e` is the persistence error `prefix` followed by `s`.
pub open spec fn persistence_error(e: OrchestratorError, prefix: Seq<char>, s: Seq<char>) -> bool {
    e matches OrchestratorError::Persistence(m) && m@ == prefix + s
}

fn message(prefix: &str, s: &str) -> (r: String)
    ensures
        r@ == prefix@ + s@,
{
    let mut m = prefix.to_owned();
    m.append(s);
    m
}

/// Parse a stored source kind; an unknown name is a persistence error.
pub fn source_kind_from_str(s: &str) -> (r: Result<SourceKind>)
    ensures
        match spec_source_kind_of(s@) {
            Some(k) => r == Ok::<SourceKind, OrchestratorError>(k),
            None => r matches Err(e) && persistence_error(e, "unknown source_kind: "@, s@),
        },
{
    if str_equal(s, "blank") {
        Ok(SourceKind::Blank)
    } else if str_equal(s, "local_dir") {
        Ok(SourceKind::LocalDir)
    } else if str_equal(s, "git_repo") {
        Ok(SourceKind::GitRepo)
    } else {
        Err(OrchestratorError::Persistence(message("unknown source_kind: ", s)))
    }
}

/// The stored name of a title source.
pub fn title_source_str(t: TitleSource) -> (r: &'static str)
    ensures
        r@ == (match t {
            TitleSource::AgentTitle => "agent-title"@,
            TitleSource::Branch => "branch"@,
            TitleSource::Both => "both"@,
            TitleSource::Custom => "custom"@,
        }),
{
    t.as_str()
}

/// The title source a stored name denotes, if any.
pub open spec fn spec_title_source_of(s: Seq<char>) -> Option<TitleSource> {
    if s == "agent-title"@ {
        Some(TitleSource::AgentTitle)
    } else if s == "branch"@ {
        Some(TitleSource::Branch)
    } else if s == "both"@ {
        Some(TitleSource::Both)
    } else if s == "custom"@ {
        Some(TitleSource::Custom)
    } else {
        None
    }
}

/// Parse a stored title source; an unknown name is a persistence error.
pub fn title_source_from_str(s: &str) -> (r: Result<TitleSource>)
    ensures
        match spec_title_source_of(s@) {
            Some(t) => r == Ok::<TitleSource, OrchestratorError>(t),
            None => r matches Err(e) && persistence_error(e, "unknown title_source: "@, s@),
        },
{
    if str_equal(s, "agent-title") {
        Ok(TitleSource::AgentTitle)
    } else if str_equal(s, "branch") {
        Ok(TitleSource::Branch)
    } else if str_equal(s, "both") {
        Ok(TitleSource::Both)
    } else if str_equal(s, "custom") {
        Ok(TitleSource::Custom)
    } else {
        Err(OrchestratorError::Persistence(message("unknown title_source: ", s)))
    }
}

/// The stored name of a surface kind.
pub fn surface_kind_str(k: SurfaceKind) -> (r: &'static str)
    ensures
        r@ == (match k {
            SurfaceKind::Terminal => "terminal"@,
            SurfaceKind::Diff => "diff"@,
        }),
{
    k.as_str()
}

/// The surface kind a stored name denotes, if any.
pub open spec fn spec_surface_kind_of(s: Seq<char>) -> Option<SurfaceKind> {
    if s == "terminal"@ {
        Some(SurfaceKind::Terminal)
    } else if s == "diff"@ {
        Some(SurfaceKind::Diff)
    } else {
        None
    }
}

/// Parse a stored surface kind; an unknown name is refused as unsupported.
pub fn surface_kind_from_str(s: &str) -> (r: Result<SurfaceKind>)
    ensures
        match spec_surface_kind_of(s@) {
            Some(k) => r == Ok::<SurfaceKind, OrchestratorError>(k),
            None => r matches Err(OrchestratorError::UnsupportedSurfaceKind(m)) && m@ == s@,
        },
{
    if str_equal(s, "terminal") {
        Ok(SurfaceKind::Terminal)
    } else if str_equal(s, "diff") {
        Ok(SurfaceKind::Diff)
    } else {
        Err(OrchestratorError::UnsupportedSurfaceKind(s.to_owned()))
    }
}

/// `p[i..j]` is a whole component of the `/`-separated path `p`.
pub open spec fn segment_at(p: Seq<char>, i: int, j: int) -> bool {
    &&& 0 <= i <= j <= p.len()
    &&& (i == 0 || p[i - 1] == '/')
    &&& (j == p.len() || p[j] == '/')
}

/// Some component of the path is the archive directory.
pub open spec fn spec_is_archived(p: Seq<char>) -> bool {
    exists|i: int, j: int| segment_at(p, i, j) && #[trigger] p.subrange(i, j) == ARCHIVE_DIR@
}

/// Whether a path lies inside an archive directory (some component is `.archive`).
pub fn is_archived(path: &str) -> (b: bool)
    ensures
        b == spec_is_archived(path@),
{
    proof {
        reveal_strlit(".archive");
    }
    let ghost p = path@;
    let n = path.unicode_len();
    let mut st: usize = 0;
    let mut pos: usize = 0;
    while pos < n
        invariant
            p == path@,
            n == p.len(),
            ARCHIVE_DIR@ == seq!['.', 'a', 'r', 'c', 'h', 'i', 'v', 'e'],
            st <= pos <= n,
            st == 0 || p[st - 1] == '/',
            forall|k: int| st <= k < pos ==> p[k] != '/',
            forall|i: int, j: int|
                segment_at(p, i, j) && j < st ==> #[trigger] p.subrange(i, j) != ARCHIVE_DIR@,
        decreases n - pos,
    {
        if path.get_char(pos) == '/' {
            let seg = path.substring_char(st, pos);
            if str_equal(seg, ARCHIVE_DIR) {
                proof {
                    assert(segment_at(p, st as int, pos as int));
                    assert(p.subrange(st as int, pos as int) == ARCHIVE_DIR@);
                }
                return true;
            }
            proof {
                assert forall|i: int, j: int|
                    segment_at(p, i, j) && j < pos + 1 implies #[trigger] p.subrange(i, j) != ARCHIVE_DIR@ by {
                    if j >= st && p.subrange(i, j) == ARCHIVE_DIR@ {
                        if j < pos {
                            assert(p[j] == '/');
                        }
                        assert(j == pos);
                        assert(p.subrange(i, j).len() == 8);
                        if i < st {
                            assert(p.subrange(i, j)[st - 1 - i] == p[st - 1]);
                        } else if i > st {
                            assert(p[i - 1] != '/');
                        }
                        assert(i == st);
                    }
                }
            }
            st = pos + 1;
        }
        pos = pos + 1;
    }
    let seg = path.substring_char(st, n);
    if str_equal(seg, ARCHIVE_DIR) {
        proof {
            assert(segment_at(p, st as int, n as int));
            assert(p.subrange(st as int, n as int) == ARCHIVE_DIR@);
        }
        return true;
    }
    proof {
        assert forall|i: int, j: int| segment_at(p, i, j) implies #[trigger] p.subrange(i, j) != ARCHIVE_DIR@ by {
            if j >= st && p.subrange(i, j) == ARCHIVE_DIR@ {
                if j < n {
                    assert(p[j] == '/');
                }
                assert(j == n);
                assert(p.subrange(i, j).len() == 8);
                if i < st {
                    assert(p.subrange(i, j)[st - 1 - i] == p[st - 1]);
                } else if i > st {
                    assert(p[i - 1] != '/');
                }
                assert(i == st);
            }
        }
    }
    false
}

/// The largest stored order among `orders` (0 when none is stored).
pub open spec fn max_order(orders: Seq<Option<u32>>) -> nat
    decreases orders.len(),
{
    if orders.len() == 0 {
        0
    } else {
        let m = max_order(orders.drop_last());
        match orders.last() {
            Some(o) => if o > m {
                o as nat
            } else {
                m
            },
            None => m,
        }
    }
}

/// The order a new entry gets among siblings with stored orders `orders`
/// (`None` for a sibling whose order cannot be read): 0 with no siblings, else
/// one past the largest stored order.
pub open spec fn spec_next_sort_order(orders: Seq<Option<u32>>) -> nat {
    if orders.len() == 0 {
        0
    } else {
        max_order(orders) + 1
    }
}

proof fn lemma_max_order_bound(orders: Seq<Option<u32>>)
    requires
        forall|i: int| 0 <= i < orders.len() ==> (#[trigger] orders[i] matches Some(o) ==> o < u32::MAX),
    ensures
        max_order(orders) < u32::MAX,
    decreases orders.len(),
{
    if orders.len() > 0 {
        let s = orders.drop_last();
        assert forall|i: int| 0 <= i < s.len() implies (#[trigger] s[i] matches Some(o) ==> o < u32::MAX) by {
            assert(s[i] == orders[i]);
        }
        lemma_max_order_bound(s);
        assert(orders.last() == orders[orders.len() - 1]);
    }
}

/// The sort order for a new entry among siblings whose stored orders are `orders`.
pub fn next_sort_order(orders: &Vec<Option<u32>>) -> (r: u32)
    requires
        forall|i: int| 0 <= i < orders@.len() ==> (#[trigger] orders@[i] matches Some(o) ==> o < u32::MAX),
    ensures
        r == spec_next_sort_order(orders@),
{
    if orders.len() == 0 {
        return 0;
    }
    let mut max: u32 = 0;
    let mut i: usize = 0;
    while i < orders.len()
        invariant
            i <= orders@.len(),
            max == max_order(orders@.take(i as int)),
        decreases orders.len() - i,
    {
        proof {
            assert(orders@.take(i + 1).drop_last() =~= orders@.take(i as int));
        }
        match orders[i] {
            Some(o) => {
                if o > max {
                    max = o;
                }
            },
            None => {},
        }
        i = i + 1;
    }
    proof {
        assert(orders@.take(i as int) =~= orders@);
        lemma_max_order_bound(orders@);
    }
    max + 1
}

/// The id-to-directory index of the file-tree store.
pub struct TreeState {
    index: StringMap,
}

impl View for TreeState {
    type V = Map<Seq<char>, Seq<char>>;

    closed spec fn view(&self) -> Map<Seq<char>, Seq<char>> {
        self.index@
    }
}

impl TreeState {
    /// The index is well formed.
    pub closed spec fn wf(&self) -> bool {
        self.index.wf()
    }

    /// An empty index.
    pub fn new() -> (r: Self)
        ensures
            r.wf(),
            r@ == Map::<Seq<char>, Seq<char>>::empty(),
    {
        TreeState { index: StringMap::new() }
    }

    /// Record an id-to-directory mapping, replacing any previous one.
    pub fn insert(&mut self, id: &str, path: &str)
        requires
            old(self).wf(),
        ensures
            final(self).wf(),
            final(self)@ == old(self)@.insert(id@, path@),
    {
        self.index.insert(id, path);
    }

    /// Forget an id.
    pub fn remove(&mut self, id: &str)
        requires
            old(self).wf(),
        ensures
            final(self).wf(),
            final(self)@ == old(self)@.remove(id@),
    {
        self.index.remove(id);
    }

    /// The directory recorded for an id.
    pub fn get(&self, id: &str) -> (r: Option<&String>)
        requires
            self.wf(),
        ensures
            match r {
                Some(p) => self@.contains_key(id@) && self@[id@] == p@,
                None => !self@.contains_key(id@),
            },
    {
        self.index.get(id)
    }
}

/// A directory entry that listings treat as live: its name does not start
/// with `.` (which also leaves out the archive directory).
pub open spec fn spec_is_live_name(name: Seq<char>) -> bool {
    name.len() == 0 || name[0] != '.'
}

/// Whether listings treat an entry named `name` as live.
pub fn is_live_name(name: &str) -> (b: bool)
    ensures
        b == spec_is_live_name(name@),
{
    name.unicode_len() == 0 || name.get_char(0) != '.'
}

/// The key a sibling sorts by: its stored order, or last when unreadable.
pub open spec fn order_key(o: Option<u32>) -> u128 {
    match o {
        Some(v) => v as u128,
        None => u32::MAX as u128,
    }
}

/// The order to list siblings in: a stable sort by stored order, siblings
/// whose order cannot be read going last (as order `u32::MAX`).
pub fn listing_order(orders: &Vec<Option<u32>>) -> (r: Vec<usize>)
    ensures
        stably_sorted_num(orders@.map_values(|o: Option<u32>| order_key(o)), r@),
{
    let mut keys: Vec<u128> = Vec::new();
    let mut i: usize = 0;
    while i < orders.len()
        invariant
            i <= orders@.len(),
            keys@ == orders@.map_values(|o: Option<u32>| order_key(o)).take(i as int),
        decreases orders.len() - i,
    {
        let k: u128 = match orders[i] {
            Some(v) => v as u128,
            None => 4294967295u128,
        };
        keys.push(k);
        proof {
            assert(keys@ =~= orders@.map_values(|o: Option<u32>| order_key(o)).take(i + 1));
        }
        i = i + 1;
    }
    proof {
        assert(keys@ =~= orders@.map_values(|o: Option<u32>| order_key(o)));
    }
    sort_positions_num(&keys)
}

/// Everything under an archived directory is archived: an entry moves into
/// the archive together with the directory holding it.
pub proof fn law_archive_covers_subtree(p: Seq<char>, q: Seq<char>)
    requires
        spec_is_archived(p),
    ensures
        spec_is_archived(p + seq!['/'] + q),
{
    let x = p + seq!['/'] + q;
    let (i, j) = choose|i: int, j: int| segment_at(p, i, j) && #[trigger] p.subrange(i, j) == ARCHIVE_DIR@;
    assert(x.subrange(i, j) =~= p.subrange(i, j));
    if i > 0 {
        assert(x[i - 1] == p[i - 1]);
    }
    if j < p.len() {
        assert(x[j] == p[j]);
    } else {
        assert(x[j] == '/');
    }
    assert(segment_at(x, i, j));
}

/// A listing that walks live names down from a directory outside the archive
/// never reaches an archived entry.
pub proof fn law_live_child_is_not_archived(p: Seq<char>, n: Seq<char>)
    requires
        !spec_is_archived(p),
        spec_is_live_name(n),
        forall|k: int| 0 <= k < n.len() ==> #[trigger] n[k] != '/',
    ensures
        !spec_is_archived(p + seq!['/'] + n),
{
    reveal_strlit(".archive");
    let x = p + seq!['/'] + n;
    let l = p.len() as int;
    assert(ARCHIVE_DIR@ == seq!['.', 'a', 'r', 'c', 'h', 'i', 'v', 'e']);
    if spec_is_archived(x) {
        let (i, j) = choose|i: int, j: int| segment_at(x, i, j) && #[trigger] x.subrange(i, j) == ARCHIVE_DIR@;
        assert(j - i == 8);
        if i <= l && l < j {
            assert(x.subrange(i, j)[l - i] == x[l]);
            assert(x[l] == '/');
        } else if j <= l {
            assert(x.subrange(i, j) =~= p.subrange(i, j));
            if i > 0 {
                assert(x[i - 1] == p[i - 1]);
            }
            if j < l {
                assert(x[j] == p[j]);
            }
            assert(segment_at(p, i, j));
        } else {
            assert(i > l);
            if i - 1 > l {
                assert(x[i - 1] == n[i - 1 - l - 1]);
            }
            assert(i == l + 1);
            if j < x.len() {
                assert(x[j] == n[j - l - 1]);
            }
            assert(j == x.len());
            assert(x.subrange(i, j) =~= n);
            assert(n[0] == '.');
        }
    }
}

/// Reading back a stored title source gives the value that was stored.
pub proof fn law_title_source_read_back(t: TitleSource)
    ensures
        spec_title_source_of(title_source_name(t)) == Some(t),
{
    reveal_strlit("agent-title");
    reveal_strlit("branch");
    reveal_strlit("both");
    reveal_strlit("custom");
    assert("agent-title"@.len() == 11 && "branch"@.len() == 6 && "both"@.len() == 4 && "custom"@.len() == 6);
    assert("custom"@[0] != "branch"@[0]);
}

/// Reading back a stored surface kind gives the kind that was stored.
pub proof fn law_surface_kind_read_back(k: SurfaceKind)
    ensures
        spec_surface_kind_of(surface_kind_name(k)) == Some(k),
{
    reveal_strlit("terminal");
    reveal_strlit("diff");
    assert("terminal"@.len() == 8 && "diff"@.len() == 4);
}

} // verus!
