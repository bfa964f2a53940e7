//! Laws of warmups.

use crate::rank;
use crate::text;
use crate::textmap;
use crate::textmap::TextMap;
use crate::warmup;
use vstd::prelude::*;

verus! {

/// A file that changed from one snapshot to another also changed the other way round.
pub proof fn law_change_goes_both_ways(
    a: Map<Seq<char>, u64>,
    b: Map<Seq<char>, u64>,
    path: Seq<char>,
)
    ensures
        warmup::is_changed(Some(a), b, path) <==> warmup::is_changed(Some(b), a, path),
{
}

proof fn lemma_listed_once(s: Set<Seq<char>>)
    requires
        s.finite(),
    ensures
        s.to_seq().no_duplicates(),
    decreases s.len(),
{
    if s.len() != 0 {
        let x = s.choose();
        lemma_listed_once(s.remove(x));
        s.remove(x).lemma_to_seq_to_set_id();
        let rest = s.remove(x).to_seq();
        assert(!rest.contains(x)) by {
            assert(rest.to_set().contains(x) <==> rest.contains(x));
        }
    }
}

/// The changes between two snapshots can be listed in exactly one way.
pub proof fn law_changes_are_listed_in_one_way(
    previous: Option<Map<Seq<char>, u64>>,
    current: Map<Seq<char>, u64>,
)
    requires
        current.dom().finite(),
        previous matches Some(p) ==> p.dom().finite(),
    ensures
        warmup::is_change_list(previous, current, warmup::changed_paths(previous, current)),
        forall|list: Seq<Seq<char>>| #[trigger]
            warmup::is_change_list(previous, current, list) ==> list == warmup::changed_paths(
                previous,
                current,
            ),
{
    let domain = match previous {
        Some(p) => current.dom().union(p.dom()),
        None => current.dom(),
    };
    let changed = domain.filter(|p: Seq<char>| warmup::is_changed(previous, current, p));
    assert(changed.finite());
    let listed = changed.to_seq();
    changed.lemma_to_seq_to_set_id();
    lemma_listed_once(changed);
    warmup::lemma_sorted_texts(listed);
    let list = rank::ranked::<String>(listed);
    assert forall|p: Seq<char>|
        list.contains(p) <==> warmup::is_changed(previous, current, p) by {
        assert(listed.to_set().contains(p) <==> listed.contains(p));
        assert(changed.contains(p) <==> warmup::is_changed(previous, current, p));
    }
    assert(warmup::is_change_list(previous, current, list));
    let chosen = warmup::changed_paths(previous, current);
    assert(warmup::is_change_list(previous, current, chosen));
    assert forall|other: Seq<Seq<char>>| #[trigger]
        warmup::is_change_list(previous, current, other) implies other == chosen by {
        warmup::lemma_ascending_unique(other, chosen);
    }
}

/// Nothing changed from a snapshot to the same snapshot.
pub proof fn law_same_snapshot_has_no_changes(snapshot: Map<Seq<char>, u64>)
    requires
        snapshot.dom().finite(),
    ensures
        warmup::changed_paths(Some(snapshot), snapshot) == Seq::<Seq<char>>::empty(),
{
    law_changes_are_listed_in_one_way(Some(snapshot), snapshot);
    let none = Seq::<Seq<char>>::empty();
    assert(textmap::ascending(none));
    assert(warmup::is_change_list(Some(snapshot), snapshot, none)) by {
        assert forall|p: Seq<char>|
            none.contains(p) <==> warmup::is_changed(Some(snapshot), snapshot, p) by {}
    }
}

/// Without an earlier snapshot each file is listed.
pub proof fn law_first_snapshot_lists_all(snapshot: Map<Seq<char>, u64>, path: Seq<char>)
    requires
        snapshot.dom().finite(),
    ensures
        warmup::changed_paths(None, snapshot).contains(path) <==> snapshot.contains_key(path),
{
    law_changes_are_listed_in_one_way(None, snapshot);
}

/// A file is listed where its time is another one, where it is new, and where it is gone.
pub proof fn law_changed_files_are_listed(
    previous: Map<Seq<char>, u64>,
    current: Map<Seq<char>, u64>,
    path: Seq<char>,
)
    requires
        previous.dom().finite(),
        current.dom().finite(),
    ensures
        warmup::changed_paths(Some(previous), current).contains(path) <==> !(
        previous.contains_key(path) == current.contains_key(path) && (previous.contains_key(path)
            ==> previous[path] == current[path])),
{
    law_changes_are_listed_in_one_way(Some(previous), current);
}

/// A snapshot that was taken before is looked at as it is, and is the one of the project that is
/// asked for.
pub proof fn law_earlier_snapshot_is_the_one_of_the_project(
    snapshot: &TextMap<u64>,
    snapshots: Map<Seq<char>, Map<Seq<char>, u64>>,
    root: Seq<char>,
    other: Seq<char>,
    current: Map<Seq<char>, u64>,
)
    ensures
        warmup::snapshot_option(Some(snapshot)) == Some(snapshot@),
        warmup::snapshot_option(None) is None,
        warmup::snapshot_at(snapshots.insert(root, current), other) == (if other == root {
            Some(current)
        } else {
            warmup::snapshot_at(snapshots, other)
        }),
        warmup::snapshot_at(Map::empty(), root) is None,
{
}

/// A file belongs in a snapshot where its extension is `java` in any case.
pub proof fn law_snapshot_sources(extension: Option<&str>, r: bool)
    requires
        call_ensures(warmup::is_snapshot_source, (extension,), r),
    ensures
        r <==> (extension matches Some(e) && {
            &&& e@.len() == 4
            &&& e@[0] == 'j' || e@[0] == 'J'
            &&& e@[1] == 'a' || e@[1] == 'A'
            &&& e@[2] == 'v' || e@[2] == 'V'
            &&& e@[3] == 'a' || e@[3] == 'A'
        }),
{
    reveal_strlit("java");
    let word = text::ascii_lowered("java"@);
    assert(word =~= "java"@);
    if let Some(e) = extension {
        let lower = text::ascii_lowered(e@);
        if e@.len() == 4 {
            assert(lower =~= seq![lower[0], lower[1], lower[2], lower[3]]);
            assert(word =~= seq![word[0], word[1], word[2], word[3]]);
        }
        if lower == word {
            assert(lower[0] == 'j' && lower[1] == 'a' && lower[2] == 'v' && lower[3] == 'a');
        }
    }
}

} // verus!
