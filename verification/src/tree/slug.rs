//! Directory names for the file-tree store: slugs derived from display names,
//! and collision suffixes.

use vstd::prelude::*;
use vstd::set_lib::{lemma_int_range, lemma_len_subset, lemma_map_size, set_int_range};
use vstd::string::StrSliceExecFns;

use crate::memory::{lemma_pos_of, pos_of};
use crate::text::{
    ascii_lower, char_is_alphanumeric, decimal, is_alnum, is_ascii_alnum, is_ascii_char, is_ascii_text,
    lemma_decimal_injective, lowercase, push_decimal, str_equal, str_to_lowercase, string_push,
};

verus! {

/// The slug character for `c`: itself when alphanumeric, else `-`.
pub open spec fn slug_char(c: char) -> char {
    if is_alnum(c) {
        c
    } else {
        '-'
    }
}

/// Runs of `-` collapsed to one and leading `-` dropped; the flag tells whether
/// the last character read was a `-` (or nothing was read yet).
pub open spec fn collapsed(s: Seq<char>) -> (Seq<char>, bool)
    decreases s.len(),
{
    if s.len() == 0 {
        (Seq::empty(), true)
    } else {
        let (out, prev_dash) = collapsed(s.drop_last());
        if s.last() == '-' {
            if prev_dash {
                (out, true)
            } else {
                (out.push('-'), true)
            }
        } else {
            (out.push(s.last()), false)
        }
    }
}

/// `s` without trailing `-` characters.
pub open spec fn trim_end_dashes(s: Seq<char>) -> Seq<char>
    decreases s.len(),
{
    if s.len() > 0 && s.last() == '-' {
        trim_end_dashes(s.drop_last())
    } else {
        s
    }
}

/// The first `n` characters of `s` (all of them when it is shorter).
pub open spec fn prefix(s: Seq<char>, n: nat) -> Seq<char> {
    if s.len() <= n {
        s
    } else {
        s.take(n as int)
    }
}

/// The slug of a display name: lowercased, each non-alphanumeric character a
/// `-`, runs of `-` collapsed, no leading or trailing `-`; when nothing is left,
/// the first 8 characters of the fallback id.
pub open spec fn spec_slugify(name: Seq<char>, fallback: Seq<char>) -> Seq<char> {
    let body = trim_end_dashes(collapsed(lowercase(name).map_values(|c: char| slug_char(c))).0);
    if body.len() == 0 {
        prefix(fallback, 8)
    } else {
        body
    }
}

/// Derive a directory slug from a display name; `fallback_id` supplies it when
/// the name has no alphanumeric character.
pub fn slugify(name: &str, fallback_id: &str) -> (r: String)
    ensures
        r@ == spec_slugify(name@, fallback_id@),
{
    let lower = str_to_lowercase(name);
    let ls = lower.as_str();
    proof {
        if is_ascii_text(name@) {
            assert(ls@ == lowercase(name@));
        }
    }
    let ghost mapped = lowercase(name@).map_values(|c: char| slug_char(c));
    let n = ls.unicode_len();
    let mut slug = String::new();
    let mut prev_dash = true;
    let mut i: usize = 0;
    while i < n
        invariant
            n == ls@.len(),
            ls@ == lowercase(name@),
            mapped == lowercase(name@).map_values(|c: char| slug_char(c)),
            i <= n,
            (slug@, prev_dash) == collapsed(mapped.take(i as int)),
        decreases n - i,
    {
        let c0 = ls.get_char(i);
        let c = if char_is_alphanumeric(c0) {
            c0
        } else {
            '-'
        };
        proof {
            assert(mapped.take(i + 1).drop_last() =~= mapped.take(i as int));
            assert(mapped.take(i + 1).last() == c);
        }
        if c == '-' {
            if !prev_dash {
                string_push(&mut slug, '-');
                prev_dash = true;
            }
        } else {
            string_push(&mut slug, c);
            prev_dash = false;
        }
        i = i + 1;
    }
    proof {
        assert(mapped.take(n as int) =~= mapped);
    }
    let ss = slug.as_str();
    let m = ss.unicode_len();
    let mut e: usize = m;
    proof {
        assert(ss@.take(m as int) =~= ss@);
    }
    while e > 0 && ss.get_char(e - 1) == '-'
        invariant
            m == ss@.len(),
            e <= m,
            trim_end_dashes(ss@) == trim_end_dashes(ss@.take(e as int)),
        decreases e,
    {
        proof {
            assert(ss@.take(e as int).drop_last() =~= ss@.take(e - 1));
        }
        e = e - 1;
    }
    proof {
        if e > 0 {
            assert(ss@.take(e as int).last() == ss@[e - 1]);
        }
        assert(trim_end_dashes(ss@.take(e as int)) == ss@.take(e as int));
    }
    if e == 0 {
        let f = fallback_id.unicode_len();
        let k: usize = if f < 8 {
            f
        } else {
            8
        };
        let r = fallback_id.substring_char(0, k).to_owned();
        proof {
            assert(r@ =~= prefix(fallback_id@, 8));
        }
        r
    } else {
        let r = ss.substring_char(0, e).to_owned();
        proof {
            assert(r@ =~= ss@.take(e as int));
        }
        r
    }
}

/// The `n`-th name tried for `base`: `base` itself first (`n <= 1`), then
/// `base-2`, `base-3`, ...
pub open spec fn candidate(base: Seq<char>, n: nat) -> Seq<char> {
    if n <= 1 {
        base
    } else {
        base + seq!['-'] + decimal(n)
    }
}

/// `names` holds `x`.
pub open spec fn holds(names: Seq<Seq<char>>, x: Seq<char>) -> bool {
    pos_of(names, x) is Some
}

/// `r` is the first candidate for `base` that `names` does not hold.
pub open spec fn first_free(names: Seq<Seq<char>>, base: Seq<char>, r: Seq<char>) -> bool {
    exists|n: nat|
        #![trigger candidate(base, n)]
        n >= 1 && r == candidate(base, n) && !holds(names, r) && forall|k: nat|
            1 <= k < n ==> holds(names, #[trigger] candidate(base, k))
}

proof fn lemma_candidate_injective(base: Seq<char>, a: nat, b: nat)
    requires
        a >= 1,
        b >= 1,
        candidate(base, a) == candidate(base, b),
    ensures
        a == b,
{
    if a >= 2 && b >= 2 {
        let ca = candidate(base, a);
        let cb = candidate(base, b);
        let k = base.len() as int + 1;
        assert(ca.skip(k) =~= decimal(a));
        assert(cb.skip(k) =~= decimal(b));
        lemma_decimal_injective(a, b);
    } else if a >= 2 {
        assert(candidate(base, a).len() > base.len());
    } else if b >= 2 {
        assert(candidate(base, b).len() > base.len());
    }
}

/// Among `names.len() + 1` distinct candidates one is free.
proof fn lemma_some_candidate_free(names: Seq<Seq<char>>, base: Seq<char>)
    ensures
        exists|n: nat| 2 <= n <= names.len() + 2 && !holds(names, #[trigger] candidate(base, n)),
{
    let l = names.len() as int;
    if forall|n: nat| 2 <= n <= l + 2 ==> holds(names, #[trigger] candidate(base, n)) {
        let x = set_int_range(2, l + 3);
        let f = |n: int| pos_of(names, candidate(base, n as nat))->0;
        lemma_int_range(2, l + 3);
        lemma_int_range(0, l);
        assert forall|a: int, b: int|
            x.contains(a) && x.contains(b) && #[trigger] f(a) == #[trigger] f(b) implies a == b by {
            lemma_pos_of(names, candidate(base, a as nat));
            lemma_pos_of(names, candidate(base, b as nat));
            assert(holds(names, candidate(base, a as nat)));
            assert(holds(names, candidate(base, b as nat)));
            lemma_candidate_injective(base, a as nat, b as nat);
        }
        let y = x.map(f);
        lemma_map_size(x, y, f);
        assert forall|i: int| y.contains(i) implies set_int_range(0, l).contains(i) by {
            let a = choose|a: int| x.contains(a) && f(a) == i;
            assert(holds(names, candidate(base, a as nat)));
            lemma_pos_of(names, candidate(base, a as nat));
        }
        lemma_len_subset(y, set_int_range(0, l));
        assert(false);
    }
}

/// Pick a name for a new entry among existing `names`: `base` when free,
/// else the first free of `base-2`, `base-3`, ...
pub fn unique_slug_among(names: &Vec<String>, base: &str) -> (r: String)
    requires
        names@.len() <= u32::MAX - 2,
    ensures
        first_free(names@.map_values(|s: String| s@), base@, r@),
{
    let ghost ns = names@.map_values(|s: String| s@);
    if !contains_name(names, base) {
        proof {
            assert(candidate(base@, 1) == base@);
        }
        return base.to_owned();
    }
    proof {
        lemma_some_candidate_free(ns, base@);
        assert(candidate(base@, 1) == base@);
    }
    let mut n: u32 = 2;
    loop
        invariant
            ns == names@.map_values(|s: String| s@),
            2 <= n <= ns.len() + 2,
            ns.len() <= u32::MAX - 2,
            forall|k: nat| 1 <= k < n ==> holds(ns, #[trigger] candidate(base@, k)),
            exists|m: nat| n <= m <= ns.len() + 2 && !holds(ns, #[trigger] candidate(base@, m)),
        decreases ns.len() + 2 - n,
    {
        let mut s = base.to_owned();
        string_push(&mut s, '-');
        push_decimal(&mut s, n as u64);
        proof {
            assert(s@ =~= candidate(base@, n as nat));
        }
        if !contains_name(names, s.as_str()) {
            return s;
        }
        proof {
            let m = choose|m: nat| n <= m <= ns.len() + 2 && !holds(ns, #[trigger] candidate(base@, m));
            assert(m != n);
        }
        n = n + 1;
    }
}

/// Whether `names` holds `x`.
fn contains_name(names: &Vec<String>, x: &str) -> (b: bool)
    ensures
        b == holds(names@.map_values(|s: String| s@), x@),
{
    let ghost ns = names@.map_values(|s: String| s@);
    proof {
        lemma_pos_of(ns, x@);
    }
    let mut i: usize = 0;
    while i < names.len()
        invariant
            ns == names@.map_values(|s: String| s@),
            i <= names@.len(),
            forall|j: int| 0 <= j < i ==> ns[j] != x@,
        decreases names.len() - i,
    {
        if str_equal(names[i].as_str(), x) {
            proof {
                assert(ns[i as int] == x@);
                lemma_pos_of(ns, x@);
            }
            return true;
        }
        i = i + 1;
    }
    proof {
        lemma_pos_of(ns, x@);
    }
    false
}

/// `s` has no leading or trailing `-` and no two `-` in a row.
pub open spec fn slug_shaped(s: Seq<char>) -> bool {
    &&& s.len() > 0 ==> s[0] != '-' && s.last() != '-'
    &&& forall|i: int| 0 <= i < s.len() - 1 ==> !(#[trigger] s[i] == '-' && s[i + 1] == '-')
}

proof fn lemma_collapsed_shape(s: Seq<char>)
    ensures
        ({
            let (out, prev_dash) = collapsed(s);
            &&& out.len() > 0 ==> out[0] != '-'
            &&& forall|i: int| 0 <= i < out.len() - 1 ==> !(#[trigger] out[i] == '-' && out[i + 1] == '-')
            &&& prev_dash <==> (out.len() == 0 || out.last() == '-')
        }),
    decreases s.len(),
{
    if s.len() > 0 {
        lemma_collapsed_shape(s.drop_last());
        let (o0, p0) = collapsed(s.drop_last());
        let (out, prev_dash) = collapsed(s);
        assert forall|i: int| 0 <= i < out.len() - 1 implies !(#[trigger] out[i] == '-' && out[i + 1] == '-') by {
            if i + 1 < o0.len() {
                assert(out[i] == o0[i] && out[i + 1] == o0[i + 1]);
            } else if out.len() > o0.len() {
                assert(out[i] == o0[i]);
            }
        }
    }
}

proof fn lemma_trim_end_dashes(s: Seq<char>)
    requires
        s.len() > 0 ==> s[0] != '-',
        forall|i: int| 0 <= i < s.len() - 1 ==> !(#[trigger] s[i] == '-' && s[i + 1] == '-'),
    ensures
        slug_shaped(trim_end_dashes(s)),
    decreases s.len(),
{
    if s.len() > 0 && s.last() == '-' {
        let t = s.drop_last();
        assert forall|i: int| 0 <= i < t.len() - 1 implies !(#[trigger] t[i] == '-' && t[i + 1] == '-') by {
            assert(t[i] == s[i] && t[i + 1] == s[i + 1]);
        }
        if t.len() > 0 {
            assert(t[0] == s[0]);
        }
        lemma_trim_end_dashes(t);
    }
}

/// A slug made from a name with some alphanumeric character has no leading or
/// trailing `-` and no two `-` in a row.
pub proof fn law_slug_shape(name: Seq<char>, fallback: Seq<char>)
    requires
        trim_end_dashes(collapsed(lowercase(name).map_values(|c: char| slug_char(c))).0).len() > 0,
    ensures
        slug_shaped(spec_slugify(name, fallback)),
{
    let m = lowercase(name).map_values(|c: char| slug_char(c));
    lemma_collapsed_shape(m);
    lemma_trim_end_dashes(collapsed(m).0);
}

/// The name an entry gets is not among the names already there.
pub proof fn law_first_free_is_free(names: Seq<Seq<char>>, base: Seq<char>, r: Seq<char>)
    requires
        first_free(names, base, r),
    ensures
        forall|i: int| 0 <= i < names.len() ==> names[i] != r,
{
    lemma_pos_of(names, r);
}


/// A character a slug of ASCII text may hold: a lowercase letter, a digit or `-`.
pub open spec fn slug_alphabet(c: char) -> bool {
    ('a' <= c && c <= 'z') || ('0' <= c && c <= '9') || c == '-'
}

/// The slug body of a name, before the fallback applies.
pub open spec fn slug_body(name: Seq<char>) -> Seq<char> {
    trim_end_dashes(collapsed(lowercase(name).map_values(|c: char| slug_char(c))).0)
}

proof fn lemma_ascii_slug_char(c: char)
    requires
        is_ascii_char(c),
    ensures
        slug_alphabet(slug_char(ascii_lower(c))),
{
    let l = ascii_lower(c);
    if 'A' <= c && c <= 'Z' {
        assert('a' <= l && l <= 'z');
    }
}

proof fn lemma_collapsed_alphabet(s: Seq<char>)
    requires
        forall|i: int| 0 <= i < s.len() ==> slug_alphabet(#[trigger] s[i]),
    ensures
        forall|j: int| 0 <= j < collapsed(s).0.len() ==> slug_alphabet(#[trigger] collapsed(s).0[j]),
    decreases s.len(),
{
    if s.len() > 0 {
        let t = s.drop_last();
        assert forall|i: int| 0 <= i < t.len() implies slug_alphabet(#[trigger] t[i]) by {
            assert(t[i] == s[i]);
        }
        lemma_collapsed_alphabet(t);
        let o = collapsed(s).0;
        let o0 = collapsed(t).0;
        assert forall|j: int| 0 <= j < o.len() implies slug_alphabet(#[trigger] o[j]) by {
            if j < o0.len() {
                assert(o[j] == o0[j]);
            } else {
                assert(slug_alphabet(s[s.len() - 1]));
            }
        }
    }
}

proof fn lemma_trim_end_prefix(s: Seq<char>)
    ensures
        trim_end_dashes(s).len() <= s.len(),
        forall|j: int| 0 <= j < trim_end_dashes(s).len() ==> #[trigger] trim_end_dashes(s)[j] == s[j],
    decreases s.len(),
{
    if s.len() > 0 && s.last() == '-' {
        lemma_trim_end_prefix(s.drop_last());
    }
}

proof fn lemma_collapsed_keeps_some(s: Seq<char>, i: int)
    requires
        0 <= i < s.len(),
        s[i] != '-',
    ensures
        exists|j: int| 0 <= j < collapsed(s).0.len() && #[trigger] collapsed(s).0[j] != '-',
    decreases s.len(),
{
    let t = s.drop_last();
    let o = collapsed(s).0;
    let o0 = collapsed(t).0;
    if i == s.len() - 1 {
        assert(o[o.len() - 1] != '-');
    } else {
        assert(t[i] == s[i]);
        lemma_collapsed_keeps_some(t, i);
        let j = choose|j: int| 0 <= j < o0.len() && #[trigger] o0[j] != '-';
        assert(o[j] == o0[j]);
    }
}

proof fn lemma_trim_keeps_some(s: Seq<char>, j: int)
    requires
        0 <= j < s.len(),
        s[j] != '-',
    ensures
        trim_end_dashes(s).len() > j,
    decreases s.len(),
{
    if s.last() == '-' {
        assert(s.drop_last()[j] == s[j]);
        lemma_trim_keeps_some(s.drop_last(), j);
    }
}

proof fn lemma_collapsed_of_shaped(s: Seq<char>)
    requires
        s.len() > 0 ==> s[0] != '-',
        forall|i: int| 0 <= i < s.len() - 1 ==> !(#[trigger] s[i] == '-' && s[i + 1] == '-'),
    ensures
        collapsed(s).0 == s,
        collapsed(s).1 <==> (s.len() == 0 || s.last() == '-'),
    decreases s.len(),
{
    if s.len() > 0 {
        let t = s.drop_last();
        assert forall|i: int| 0 <= i < t.len() - 1 implies !(#[trigger] t[i] == '-' && t[i + 1] == '-') by {
            assert(t[i] == s[i] && t[i + 1] == s[i + 1]);
        }
        if t.len() > 0 {
            assert(t[0] == s[0]);
        }
        lemma_collapsed_of_shaped(t);
        if s.last() == '-' && t.len() > 0 {
            assert(!(s[t.len() - 1] == '-' && s[t.len() as int] == '-'));
        }
        assert(t.push(s.last()) =~= s);
    }
}

/// The slug of ASCII text uses only lowercase letters, digits and `-`; when
/// the text has an ASCII letter or digit the slug is made from the text
/// alone (not the fallback) and has no leading, trailing or doubled `-`.
pub proof fn law_ascii_slug(name: Seq<char>, fallback: Seq<char>)
    requires
        is_ascii_text(name),
    ensures
        slug_body(name).len() > 0 ==> spec_slugify(name, fallback) == slug_body(name),
        forall|j: int| 0 <= j < slug_body(name).len() ==> slug_alphabet(#[trigger] slug_body(name)[j]),
        (exists|i: int| 0 <= i < name.len() && is_ascii_alnum(#[trigger] name[i])) ==> slug_body(name).len() > 0
            && slug_shaped(spec_slugify(name, fallback)),
{
    let m = lowercase(name).map_values(|c: char| slug_char(c));
    assert(lowercase(name) == name.map_values(|c: char| ascii_lower(c)));
    assert forall|i: int| 0 <= i < m.len() implies slug_alphabet(#[trigger] m[i]) by {
        assert(is_ascii_char(name[i]));
        lemma_ascii_slug_char(name[i]);
    }
    lemma_collapsed_alphabet(m);
    lemma_trim_end_prefix(collapsed(m).0);
    if exists|i: int| 0 <= i < name.len() && is_ascii_alnum(#[trigger] name[i]) {
        let i = choose|i: int| 0 <= i < name.len() && is_ascii_alnum(#[trigger] name[i]);
        assert(is_ascii_char(name[i]));
        let l = ascii_lower(name[i]);
        if 'A' <= name[i] && name[i] <= 'Z' {
            assert('a' <= l && l <= 'z');
        }
        assert(m[i] == slug_char(l));
        assert(m[i] != '-');
        lemma_collapsed_keeps_some(m, i);
        let j = choose|j: int| 0 <= j < collapsed(m).0.len() && #[trigger] collapsed(m).0[j] != '-';
        lemma_trim_keeps_some(collapsed(m).0, j);
        law_slug_shape(name, fallback);
    }
}

/// Slugifying the slug of ASCII text (made from the text, not the fallback)
/// gives the same slug back.
pub proof fn law_ascii_slug_idempotent(name: Seq<char>, fallback: Seq<char>)
    requires
        is_ascii_text(name),
        slug_body(name).len() > 0,
    ensures
        spec_slugify(spec_slugify(name, fallback), fallback) == spec_slugify(name, fallback),
{
    law_ascii_slug(name, fallback);
    law_slug_shape(name, fallback);
    let r = slug_body(name);
    assert(spec_slugify(name, fallback) == r);
    assert forall|i: int| 0 <= i < r.len() implies is_ascii_char(#[trigger] r[i]) by {
        assert(slug_alphabet(r[i]));
    }
    let lr = r.map_values(|c: char| ascii_lower(c));
    assert(lowercase(r) == lr);
    assert(lr =~= r) by {
        assert forall|i: int| 0 <= i < r.len() implies #[trigger] lr[i] == r[i] by {
            assert(slug_alphabet(r[i]));
        }
    }
    let m = lowercase(r).map_values(|c: char| slug_char(c));
    assert(m =~= r) by {
        assert forall|i: int| 0 <= i < r.len() implies #[trigger] m[i] == r[i] by {
            assert(slug_alphabet(r[i]));
            assert(is_ascii_char(r[i]));
        }
    }
    lemma_collapsed_of_shaped(r);
    assert(trim_end_dashes(r) == r);
    assert(slug_body(r) == r);
}

/// The text the slug of ASCII text is cut from: each ASCII letter or digit
/// lowercased, every other character a `-`.
pub open spec fn ascii_slug_chars(name: Seq<char>) -> Seq<char> {
    name.map_values(|c: char| if is_ascii_alnum(c) { ascii_lower(c) } else { '-' })
}

/// `m` split at `-`, read left to right: the runs already closed by a `-`,
/// and the run being read.
pub open spec fn split_runs(m: Seq<char>) -> (Seq<Seq<char>>, Seq<char>)
    decreases m.len(),
{
    if m.len() == 0 {
        (Seq::empty(), Seq::empty())
    } else {
        let (ws, cur) = split_runs(m.drop_last());
        if m.last() == '-' {
            if cur.len() > 0 {
                (ws.push(cur), Seq::empty())
            } else {
                (ws, Seq::empty())
            }
        } else {
            (ws, cur.push(m.last()))
        }
    }
}

/// The maximal runs of characters other than `-` in `m`, in order.
pub open spec fn dash_runs(m: Seq<char>) -> Seq<Seq<char>> {
    let (ws, cur) = split_runs(m);
    if cur.len() > 0 {
        ws.push(cur)
    } else {
        ws
    }
}

/// Runs joined by single `-`.
pub open spec fn join_dashes(ws: Seq<Seq<char>>) -> Seq<char>
    decreases ws.len(),
{
    if ws.len() == 0 {
        Seq::empty()
    } else if ws.len() == 1 {
        ws[0]
    } else {
        join_dashes(ws.drop_last()) + seq!['-'] + ws.last()
    }
}

/// A run: not empty, and without `-`.
pub open spec fn is_run(w: Seq<char>) -> bool {
    w.len() > 0 && forall|k: int| 0 <= k < w.len() ==> #[trigger] w[k] != '-'
}

/// What `collapsed` has written so far, in terms of the runs read so far.
pub open spec fn written(ws: Seq<Seq<char>>, cur: Seq<char>) -> Seq<char> {
    if ws.len() == 0 {
        cur
    } else if cur.len() == 0 {
        join_dashes(ws) + seq!['-']
    } else {
        join_dashes(ws) + seq!['-'] + cur
    }
}

proof fn lemma_join_push(ws: Seq<Seq<char>>, w: Seq<char>)
    ensures
        join_dashes(ws.push(w)) == if ws.len() == 0 {
            w
        } else {
            join_dashes(ws) + seq!['-'] + w
        },
{
    assert(ws.push(w).drop_last() =~= ws);
}

proof fn lemma_split_runs(m: Seq<char>)
    ensures
        forall|k: int| 0 <= k < split_runs(m).0.len() ==> is_run(#[trigger] split_runs(m).0[k]),
        forall|k: int| 0 <= k < split_runs(m).1.len() ==> #[trigger] split_runs(m).1[k] != '-',
        collapsed(m).1 <==> split_runs(m).1.len() == 0,
        collapsed(m).0 == written(split_runs(m).0, split_runs(m).1),
    decreases m.len(),
{
    if m.len() > 0 {
        let t = m.drop_last();
        lemma_split_runs(t);
        let (ws, cur) = split_runs(t);
        let c = m.last();
        if c == '-' {
            if cur.len() > 0 {
                lemma_join_push(ws, cur);
                assert forall|k: int| 0 <= k < ws.push(cur).len() implies is_run(#[trigger] ws.push(cur)[k]) by {
                    if k < ws.len() {
                        assert(ws.push(cur)[k] == ws[k]);
                    }
                }
            }
        } else {
            lemma_join_push(ws, cur);
            let nc = cur.push(c);
            assert forall|k: int| 0 <= k < nc.len() implies #[trigger] nc[k] != '-' by {
                if k < cur.len() {
                    assert(nc[k] == cur[k]);
                }
            }
            if ws.len() == 0 {
            } else if cur.len() == 0 {
                assert(join_dashes(ws) + seq!['-'] + nc =~= (join_dashes(ws) + seq!['-']).push(c));
            } else {
                assert(join_dashes(ws) + seq!['-'] + nc =~= (join_dashes(ws) + seq!['-'] + cur).push(c));
            }
        }
    }
}

proof fn lemma_join_ends_in_run(ws: Seq<Seq<char>>)
    requires
        ws.len() > 0,
        forall|k: int| 0 <= k < ws.len() ==> is_run(#[trigger] ws[k]),
    ensures
        join_dashes(ws).len() > 0,
        join_dashes(ws).last() == ws.last().last(),
        join_dashes(ws).last() != '-',
{
    assert(is_run(ws[ws.len() - 1]));
    let w = ws.last();
    assert(w[w.len() - 1] != '-');
}

/// The slug body of any name is the maximal runs of its slug characters,
/// joined by single `-`.
pub proof fn law_slug_body_is_joined_runs(name: Seq<char>)
    ensures
        slug_body(name) == join_dashes(dash_runs(lowercase(name).map_values(|c: char| slug_char(c)))),
{
    let m = lowercase(name).map_values(|c: char| slug_char(c));
    lemma_split_runs(m);
    let (ws, cur) = split_runs(m);
    let out = collapsed(m).0;
    if cur.len() > 0 {
        lemma_join_push(ws, cur);
        assert(cur[cur.len() - 1] != '-');
        assert(out.last() == cur.last());
        assert(trim_end_dashes(out) == out);
    } else if ws.len() > 0 {
        lemma_join_ends_in_run(ws);
        assert(out.drop_last() =~= join_dashes(ws));
        assert(trim_end_dashes(join_dashes(ws)) == join_dashes(ws));
    }
}

proof fn lemma_all_dashes_no_runs(m: Seq<char>)
    requires
        forall|k: int| 0 <= k < m.len() ==> #[trigger] m[k] == '-',
    ensures
        split_runs(m).0.len() == 0,
        split_runs(m).1.len() == 0,
    decreases m.len(),
{
    if m.len() > 0 {
        let t = m.drop_last();
        assert forall|k: int| 0 <= k < t.len() implies #[trigger] t[k] == '-' by {
            assert(t[k] == m[k]);
        }
        lemma_all_dashes_no_runs(t);
    }
}

/// The slug of ASCII text: with no ASCII letter or digit in it, the first 8
/// characters of the fallback id; otherwise the maximal runs of its letters
/// and digits, lowercased, joined by single `-`.
pub proof fn law_ascii_slug_runs(name: Seq<char>, fallback: Seq<char>)
    requires
        is_ascii_text(name),
    ensures
        (forall|i: int| 0 <= i < name.len() ==> !is_ascii_alnum(#[trigger] name[i])) ==> spec_slugify(name, fallback)
            == prefix(fallback, 8),
        (exists|i: int| 0 <= i < name.len() && is_ascii_alnum(#[trigger] name[i])) ==> spec_slugify(name, fallback)
            == join_dashes(dash_runs(ascii_slug_chars(name))),
{
    let m = lowercase(name).map_values(|c: char| slug_char(c));
    assert(lowercase(name) == name.map_values(|c: char| ascii_lower(c)));
    assert(m =~= ascii_slug_chars(name)) by {
        assert forall|i: int| 0 <= i < name.len() implies #[trigger] m[i] == ascii_slug_chars(name)[i] by {
            let c = name[i];
            assert(is_ascii_char(c));
            let l = ascii_lower(c);
            if 'A' <= c && c <= 'Z' {
                assert('a' <= l && l <= 'z');
            }
        }
    }
    law_slug_body_is_joined_runs(name);
    if forall|i: int| 0 <= i < name.len() ==> !is_ascii_alnum(#[trigger] name[i]) {
        assert forall|k: int| 0 <= k < m.len() implies #[trigger] m[k] == '-' by {
            assert(ascii_slug_chars(name)[k] == '-');
        }
        lemma_all_dashes_no_runs(m);
    } else {
        law_ascii_slug(name, fallback);
    }
}

} // verus!
