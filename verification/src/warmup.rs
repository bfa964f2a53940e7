//! What changed in a project since it was last looked at.

use crate::rank;
use crate::text;
use crate::textmap;
use crate::textmap::TextMap;
use vstd::prelude::*;

verus! {

broadcast use vstd::string::group_string_axioms;

/// Whether a file belongs in a snapshot, by the extension of its path, in any case.
pub fn is_snapshot_source(extension: Option<&str>) -> (r: bool)
    ensures
        r <==> (extension matches Some(e) && text::ascii_lowered(e@) == text::ascii_lowered(
            "java"@,
        )),
{
    match extension {
        Some(e) => text::eq_ignore_ascii_case(e, "java"),
        None => false,
    }
}

/// Whether the file at `path` is new, has another time, or is gone. Without an earlier snapshot
/// each file is new.
pub open spec fn is_changed(
    previous: Option<Map<Seq<char>, u64>>,
    current: Map<Seq<char>, u64>,
    path: Seq<char>,
) -> bool {
    match previous {
        None => current.contains_key(path),
        Some(prev) => {
            ||| current.contains_key(path) && !(prev.contains_key(path) && prev[path]
                == current[path])
            ||| prev.contains_key(path) && !current.contains_key(path)
        },
    }
}

/// Whether `list` is the paths that changed, in ascending order.
pub open spec fn is_change_list(
    previous: Option<Map<Seq<char>, u64>>,
    current: Map<Seq<char>, u64>,
    list: Seq<Seq<char>>,
) -> bool {
    &&& textmap::ascending(list)
    &&& forall|p: Seq<char>| list.contains(p) <==> is_changed(previous, current, p)
}

/// The paths that changed, in ascending order.
pub open spec fn changed_paths(
    previous: Option<Map<Seq<char>, u64>>,
    current: Map<Seq<char>, u64>,
) -> Seq<Seq<char>> {
    choose|list: Seq<Seq<char>>| is_change_list(previous, current, list)
}

/// Two lists in ascending order with the same texts are the same list.
pub proof fn lemma_ascending_unique(a: Seq<Seq<char>>, b: Seq<Seq<char>>)
    requires
        textmap::ascending(a),
        textmap::ascending(b),
        forall|p: Seq<char>| a.contains(p) <==> b.contains(p),
    ensures
        a == b,
    decreases a.len(),
{
    if a.len() == 0 {
        if b.len() > 0 {
            assert(b.contains(b[0]));
        }
        assert(a =~= b);
    } else {
        assert(a.contains(a[0]));
        let k = b.index_of(a[0]);
        assert(b.contains(b[0]));
        let m = a.index_of(b[0]);
        rank::lemma_text_before(a[0], b[0], a[0]);
        assert(a[0] == b[0]) by {
            if k > 0 && m > 0 {
                assert(rank::text_before(b[0], b[k]));
                assert(rank::text_before(a[0], a[m]));
            }
        }
        let x = a.skip(1);
        let y = b.skip(1);
        assert(textmap::ascending(x)) by {
            assert forall|i: int, j: int| 0 <= i < j < x.len() implies rank::text_before(
                #[trigger] x[i],
                #[trigger] x[j],
            ) by {
                assert(x[i] == a[i + 1] && x[j] == a[j + 1]);
            }
        }
        assert(textmap::ascending(y)) by {
            assert forall|i: int, j: int| 0 <= i < j < y.len() implies rank::text_before(
                #[trigger] y[i],
                #[trigger] y[j],
            ) by {
                assert(y[i] == b[i + 1] && y[j] == b[j + 1]);
            }
        }
        assert forall|p: Seq<char>| x.contains(p) <==> y.contains(p) by {
            lemma_skip_contains(a, p);
            lemma_skip_contains(b, p);
        }
        lemma_ascending_unique(x, y);
        assert(a =~= seq![a[0]] + x);
        assert(b =~= seq![b[0]] + y);
    }
}

proof fn lemma_skip_contains(a: Seq<Seq<char>>, p: Seq<char>)
    requires
        textmap::ascending(a),
        a.len() > 0,
    ensures
        a.skip(1).contains(p) <==> a.contains(p) && p != a[0],
{
    let x = a.skip(1);
    if x.contains(p) {
        let i = x.index_of(p);
        assert(a[i + 1] == p);
        rank::lemma_text_before(a[0], a[i + 1], p);
    }
    if a.contains(p) && p != a[0] {
        let i = a.index_of(p);
        assert(x[i - 1] == p);
    }
}

/// What an optional snapshot stands for.
pub open spec fn snapshot_option(s: Option<&TextMap<u64>>) -> Option<Map<Seq<char>, u64>> {
    match s {
        Some(s) => Some(s@),
        None => None,
    }
}

/// Texts that differ from each other are in strictly ascending order once they are sorted.
pub proof fn lemma_sorted_texts(s: Seq<Seq<char>>)
    requires
        s.no_duplicates(),
    ensures
        textmap::ascending(rank::ranked::<String>(s)),
        forall|p: Seq<char>| rank::ranked::<String>(s).contains(p) <==> s.contains(p),
{
    broadcast use vstd::seq_lib::group_to_multiset_ensures;

    let r = rank::ranked::<String>(s);
    rank::law_ranked::<String>(s);
    s.lemma_multiset_has_no_duplicates();
    assert forall|x: Seq<char>| r.to_multiset().contains(x) implies r.to_multiset().count(x)
        == 1 by {
        assert(s.to_multiset().contains(x));
    }
    r.lemma_multiset_has_no_duplicates_conv();
    assert forall|i: int, j: int| 0 <= i < j < r.len() implies rank::text_before(
        #[trigger] r[i],
        #[trigger] r[j],
    ) by {
        rank::lemma_text_order_equal(r[i], r[j]);
        assert(r[i] != r[j]);
        lemma_no_later(r, i, j);
    }
    assert forall|p: Seq<char>| r.contains(p) <==> s.contains(p) by {
        assert(r.to_multiset().count(p) == s.to_multiset().count(p));
    }
}

proof fn lemma_no_later(r: Seq<Seq<char>>, i: int, j: int)
    requires
        rank::in_order::<String>(r),
        0 <= i < j < r.len(),
        r[i] != r[j],
    ensures
        rank::text_before(r[i], r[j]),
{
    rank::lemma_text_before(r[i], r[j], r[j]);
    rank::lemma_text_order_flips(r[i], r[j]);
}

/// The paths that changed from one snapshot to the next, in ascending order.
pub fn diff_changed_files(previous: Option<&TextMap<u64>>, current: &TextMap<u64>) -> (r: Vec<
    String,
>)
    ensures
        is_change_list(snapshot_option(previous), current@, rank::views(r@)),
        rank::views(r@) == changed_paths(snapshot_option(previous), current@),
{
    let mut changed: Vec<String> = Vec::new();
    let ghost prev = snapshot_option(previous);
    let n = current.len();
    let ghost keys = current.keys();
    let mut i: usize = 0;
    assert(rank::views(changed@) =~= Seq::empty());
    while i < n
        invariant
            i <= n == keys.len(),
            keys == current.keys(),
            prev == snapshot_option(previous),
            textmap::ascending(keys),
            rank::views(changed@).no_duplicates(),
            forall|p: Seq<char>| #[trigger]
                rank::views(changed@).contains(p) <==> keys.take(i as int).contains(p)
                    && is_changed(prev, current@, p),
        decreases n - i,
    {
        let path = current.key_at(i);
        let time = *current.value_at(i);
        let same = match previous {
            Some(p) => match p.get(path) {
                Some(t) => *t == time,
                None => false,
            },
            None => false,
        };
        let ghost before = rank::views(changed@);
        let ghost c0 = changed@;
        assert(same <==> !is_changed(prev, current@, path@));
        proof {
            lemma_take_contains(keys, i as int);
            assert(!keys.take(i as int).contains(path@)) by {
                if keys.take(i as int).contains(path@) {
                    let k = keys.take(i as int).index_of(path@);
                    rank::lemma_text_before(keys[k], keys[i as int], path@);
                }
            }
        }
        if !same {
            changed.push(path.to_string());
            proof {
                assert(rank::views(changed@) =~= before.push(path@));
                lemma_push_contains(before, path@);
            }
        }
        i += 1;
    }
    assert(keys.take(i as int) =~= keys);
    if let Some(prev_map) = previous {
        let m = prev_map.len();
        let ghost old_keys = prev_map.keys();
        let mut j: usize = 0;
        assert(forall|p: Seq<char>| !old_keys.take(0).contains(p));
        while j < m
            invariant
                j <= m == old_keys.len(),
                old_keys == prev_map.keys(),
                prev == Some(prev_map@),
                textmap::ascending(old_keys),
                forall|p: Seq<char>| current@.contains_key(p) <==> keys.contains(p),
                rank::views(changed@).no_duplicates(),
                forall|p: Seq<char>| #[trigger]
                    rank::views(changed@).contains(p) <==> (keys.contains(p) || old_keys.take(
                        j as int,
                    ).contains(p)) && is_changed(prev, current@, p),
            decreases m - j,
        {
            let path = prev_map.key_at(j);
            let gone = current.get(path).is_none();
            let ghost before = rank::views(changed@);
            proof {
                lemma_take_contains(old_keys, j as int);
                assert(!old_keys.take(j as int).contains(path@)) by {
                    if old_keys.take(j as int).contains(path@) {
                        let k = old_keys.take(j as int).index_of(path@);
                        rank::lemma_text_before(old_keys[k], old_keys[j as int], path@);
                    }
                }
            }
            if gone {
                changed.push(path.to_string());
                proof {
                    assert(rank::views(changed@) =~= before.push(path@));
                    lemma_push_contains(before, path@);
                    assert(is_changed(prev, current@, path@));
                }
            }
            j += 1;
        }
        assert(old_keys.take(j as int) =~= old_keys);
    }
    proof {
        assert forall|p: Seq<char>| #[trigger]
            rank::views(changed@).contains(p) <==> is_changed(prev, current@, p) by {
            assert(current@.contains_key(p) <==> keys.contains(p));
            if let Some(prev_map) = previous {
                assert(prev_map@.contains_key(p) <==> prev_map.keys().contains(p));
            }
        }
        lemma_sorted_texts(rank::views(changed@));
    }
    let sorted = rank::stable_sort(changed);
    assert forall|p: Seq<char>|
        rank::views(sorted@).contains(p) <==> is_changed(
            snapshot_option(previous),
            current@,
            p,
        ) by {
        assert(rank::views(changed@).contains(p) <==> is_changed(prev, current@, p));
    }
    proof {
        let list = rank::views(sorted@);
        assert(is_change_list(prev, current@, list));
        let chosen = changed_paths(prev, current@);
        assert(is_change_list(prev, current@, chosen));
        lemma_ascending_unique(list, chosen);
    }
    sorted
}

proof fn lemma_take_contains(s: Seq<Seq<char>>, i: int)
    requires
        0 <= i < s.len(),
    ensures
        forall|p: Seq<char>|
            s.take(i + 1).contains(p) <==> s.take(i).contains(p) || p == s[i],
{
    assert(s.take(i + 1) =~= s.take(i).push(s[i]));
    lemma_push_contains(s.take(i), s[i]);
}

proof fn lemma_push_contains(s: Seq<Seq<char>>, x: Seq<char>)
    ensures
        forall|p: Seq<char>| #[trigger] s.push(x).contains(p) <==> s.contains(p) || p == x,
        s.no_duplicates() && !s.contains(x) ==> s.push(x).no_duplicates(),
{
    let t = s.push(x);
    assert forall|p: Seq<char>| #[trigger] t.contains(p) <==> s.contains(p) || p == x by {
        if t.contains(p) {
            let k = t.index_of(p);
            if k < s.len() {
                assert(s[k] == p);
            }
        }
        if s.contains(p) {
            let k = s.index_of(p);
            assert(t[k] == p);
        }
        if p == x {
            assert(t[s.len() as int] == p);
        }
    }
}

/// The snapshots of projects, by their roots.
#[derive(Debug)]
pub struct Snapshots {
    by_root: TextMap<TextMap<u64>>,
}

impl View for Snapshots {
    type V = Map<Seq<char>, Map<Seq<char>, u64>>;

    closed spec fn view(&self) -> Map<Seq<char>, Map<Seq<char>, u64>> {
        self.by_root@.map_values(|s: TextMap<u64>| s@)
    }
}

/// The snapshot of the project at `root`, if there is one.
pub open spec fn snapshot_at(
    snapshots: Map<Seq<char>, Map<Seq<char>, u64>>,
    root: Seq<char>,
) -> Option<Map<Seq<char>, u64>> {
    if snapshots.contains_key(root) {
        Some(snapshots[root])
    } else {
        None
    }
}

impl Snapshots {
    /// No snapshots.
    pub fn new() -> (r: Snapshots)
        ensures
            r@ == Map::<Seq<char>, Map<Seq<char>, u64>>::empty(),
    {
        let r = Snapshots { by_root: TextMap::new() };
        assert(r@ =~= Map::<Seq<char>, Map<Seq<char>, u64>>::empty());
        r
    }

    /// Puts the snapshot of the project at `root` in place of the earlier one, and tells the
    /// paths that changed from the one to the other, in ascending order, and their number.
    pub fn compute_incremental_warmup(&mut self, root: &str, snapshot: TextMap<u64>) -> (r: (
        Vec<String>,
        usize,
    ))
        ensures
            final(self)@ == old(self)@.insert(root@, snapshot@),
            is_change_list(snapshot_at(old(self)@, root@), snapshot@, rank::views(r.0@)),
            rank::views(r.0@) == changed_paths(snapshot_at(old(self)@, root@), snapshot@),
            r.1 == r.0@.len(),
    {
        let changed = diff_changed_files(self.by_root.get(root), &snapshot);
        let count = changed.len();
        self.by_root.insert(root.to_string(), snapshot);
        assert(self@ =~= old(self)@.insert(root@, snapshot@));
        (changed, count)
    }
}

} // verus!
