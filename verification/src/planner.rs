//! Directory preparation: which directories an install has to create.
//!
//! Preparing a relative path below a base directory means that the target
//! and every directory on the way down to it exist afterwards. A path whose
//! target exists already is skipped as a whole; otherwise the way down is
//! walked segment by segment and each directory that is absent is created.
//! Nothing here touches the disk: the functions read and update a
//! [`PathIndex`] and hand back the directories to create, in order.

use vstd::prelude::*;
use vstd::string::*;
use crate::segments::{segments, texts};
use crate::tree::{
    ancestor_closed, chain, directory_chain, is_cut, lemma_chain_in_lineage, lemma_chain_last,
    lemma_lineage_closed, lemma_union_closed, lineage, target, PathIndex,
};

verus! {

/// The test for a path that is not in `t`.
pub open spec fn absent_from(t: Set<Seq<char>>) -> spec_fn(Seq<char>) -> bool {
    |d: Seq<char>| !t.contains(d)
}

/// The directories to create so that `rel` is prepared below `base`, given
/// that exactly the paths of `t` exist: none if the target exists, else the
/// absent directories of the chain, outermost first.
pub open spec fn missing(t: Set<Seq<char>>, base: Seq<char>, rel: Seq<char>) -> Seq<Seq<char>> {
    let dirs = chain(base, rel);
    if dirs.len() == 0 || t.contains(dirs.last()) {
        Seq::empty()
    } else {
        dirs.filter(absent_from(t))
    }
}

/// The paths that exist once `rel` has been prepared below `base`.
pub open spec fn settled(t: Set<Seq<char>>, base: Seq<char>, rel: Seq<char>) -> Set<Seq<char>> {
    if segments(rel).len() == 0 || t.contains(target(base, rel)) {
        t
    } else {
        t + lineage(target(base, rel))
    }
}

/// After preparation every directory on the way down to the target exists,
/// the target included.
pub proof fn lemma_prepared_chain_exists(
    t: Set<Seq<char>>,
    base: Seq<char>,
    rel: Seq<char>,
    k: int,
)
    requires
        ancestor_closed(t),
        0 <= k < chain(base, rel).len(),
    ensures
        settled(t, base, rel).contains(chain(base, rel)[k]),
{
    let goal = target(base, rel);
    lemma_chain_in_lineage(base, rel, k);
    if t.contains(goal) {
        let d = chain(base, rel)[k];
        if d != goal {
            let i = choose|i: int| is_cut(goal, i) && d == goal.take(i);
            assert(t.contains(goal) && is_cut(goal, i));
        }
    }
}

/// A target that exists already is left alone, and so is a path without
/// segments: nothing is created and the set of existing paths stays as it
/// is.
pub proof fn lemma_existing_target_skipped(t: Set<Seq<char>>, base: Seq<char>, rel: Seq<char>)
    requires
        segments(rel).len() == 0 || t.contains(target(base, rel)),
    ensures
        missing(t, base, rel) == Seq::<Seq<char>>::empty(),
        settled(t, base, rel) == t,
{
    if chain(base, rel).len() > 0 {
        lemma_chain_last(base, rel);
    }
}

/// Preparation only adds paths, and keeps the set closed under ancestors.
pub proof fn lemma_settled_grows(t: Set<Seq<char>>, base: Seq<char>, rel: Seq<char>)
    ensures
        t.subset_of(settled(t, base, rel)),
        ancestor_closed(t) ==> ancestor_closed(settled(t, base, rel)),
        segments(rel).len() > 0 ==> settled(t, base, rel).contains(target(base, rel)),
{
    if ancestor_closed(t) {
        lemma_lineage_closed(target(base, rel));
        lemma_union_closed(t, lineage(target(base, rel)));
    }
}

/// Every directory handed out for creation was absent before and exists
/// once the path is prepared.
pub proof fn lemma_missing_sound(t: Set<Seq<char>>, base: Seq<char>, rel: Seq<char>, i: int)
    requires
        0 <= i < missing(t, base, rel).len(),
    ensures
        !t.contains(missing(t, base, rel)[i]),
        settled(t, base, rel).contains(missing(t, base, rel)[i]),
{
    let dirs = chain(base, rel);
    let absent = absent_from(t);
    let d = missing(t, base, rel)[i];
    let kept = dirs.filter(absent);
    assert(missing(t, base, rel) == kept);
    lemma_chain_last(base, rel);
    dirs.lemma_filter_pred(absent, i);
    assert(kept.contains(kept[i]));
    dirs.lemma_filter_contains_rev(absent, d);
    let k = choose|k: int| 0 <= k < dirs.len() && dirs[k] == d;
    lemma_chain_in_lineage(base, rel, k);
}

/// Preparing a path a second time creates nothing and changes nothing.
pub proof fn lemma_prepare_idempotent(t: Set<Seq<char>>, base: Seq<char>, rel: Seq<char>)
    ensures
        missing(settled(t, base, rel), base, rel) == Seq::<Seq<char>>::empty(),
        settled(settled(t, base, rel), base, rel) == settled(t, base, rel),
{
    lemma_settled_grows(t, base, rel);
    if segments(rel).len() > 0 {
        lemma_existing_target_skipped(settled(t, base, rel), base, rel);
    }
}

impl PathIndex {
    /// Prepares `rel` below `base`: returns the directories to create, in
    /// the order in which to create them, and notes them as existing.
    pub fn ensure_path(&mut self, base: &str, rel: &str) -> (created: Vec<String>)
        ensures
            texts(created@) == missing(old(self)@, base@, rel@),
            final(self)@ == settled(old(self)@, base@, rel@),
    {
        let dirs = directory_chain(base, rel);
        let mut created: Vec<String> = Vec::new();
        let ghost t = self@;
        let ghost all = chain(base@, rel@);
        let ghost absent = absent_from(t);
        if dirs.len() == 0 {
            assert(texts(created@) =~= Seq::<Seq<char>>::empty());
            return created;
        }
        proof {
            lemma_chain_last(base@, rel@);
            assert(texts(dirs@)[dirs.len() - 1] == dirs[dirs.len() - 1]@);
        }
        let goal = &dirs[dirs.len() - 1];
        if self.contains(goal.as_str()) {
            assert(texts(created@) =~= Seq::<Seq<char>>::empty());
            return created;
        }
        let mut k: usize = 0;
        proof {
            assert(all.take(0) =~= Seq::<Seq<char>>::empty());
            assert(texts(created@) =~= all.take(0).filter(absent));
        }
        while k < dirs.len()
            invariant
                k <= dirs.len(),
                texts(dirs@) == all,
                self@ == t,
                absent == absent_from(t),
                texts(created@) == all.take(k as int).filter(absent),
            decreases dirs.len() - k,
        {
            let ghost before = texts(created@);
            proof {
                assert(texts(dirs@)[k as int] == dirs[k as int]@);
                assert(all.take(k + 1) =~= all.take(k as int).push(all[k as int]));
                all.take(k as int).lemma_filter_push(all[k as int], absent);
            }
            if !self.contains(dirs[k].as_str()) {
                created.push(dirs[k].clone());
                assert(texts(created@) =~= before.push(all[k as int]));
            }
            k += 1;
        }
        proof {
            assert(all.take(all.len() as int) =~= all);
        }
        self.record(goal.as_str());
        created
    }
}

/// The directories to create so that each path of `paths` is prepared below
/// `base`, one path after the other: a later path finds what an earlier one
/// created.
pub open spec fn missing_all(t: Set<Seq<char>>, base: Seq<char>, paths: Seq<Seq<char>>) -> Seq<
    Seq<char>,
>
    decreases paths.len(),
{
    if paths.len() == 0 {
        Seq::empty()
    } else {
        let earlier = paths.drop_last();
        missing_all(t, base, earlier) + missing(settled_all(t, base, earlier), base, paths.last())
    }
}

/// The paths that exist once each path of `paths` has been prepared below
/// `base`.
pub open spec fn settled_all(t: Set<Seq<char>>, base: Seq<char>, paths: Seq<Seq<char>>) -> Set<
    Seq<char>,
>
    decreases paths.len(),
{
    if paths.len() == 0 {
        t
    } else {
        settled(settled_all(t, base, paths.drop_last()), base, paths.last())
    }
}

/// Preparing several paths only adds paths, and keeps the set closed under
/// ancestors.
pub proof fn lemma_settled_all_grows(t: Set<Seq<char>>, base: Seq<char>, paths: Seq<Seq<char>>)
    ensures
        t.subset_of(settled_all(t, base, paths)),
        ancestor_closed(t) ==> ancestor_closed(settled_all(t, base, paths)),
    decreases paths.len(),
{
    if paths.len() > 0 {
        let earlier = paths.drop_last();
        lemma_settled_all_grows(t, base, earlier);
        lemma_settled_grows(settled_all(t, base, earlier), base, paths.last());
    }
}

/// After several paths have been prepared, every directory on the way down
/// to each of their targets exists.
pub proof fn lemma_all_prepared_exist(
    t: Set<Seq<char>>,
    base: Seq<char>,
    paths: Seq<Seq<char>>,
    i: int,
    k: int,
)
    requires
        ancestor_closed(t),
        0 <= i < paths.len(),
        0 <= k < chain(base, paths[i]).len(),
    ensures
        settled_all(t, base, paths).contains(chain(base, paths[i])[k]),
    decreases paths.len(),
{
    let earlier = paths.drop_last();
    let reached = settled_all(t, base, earlier);
    lemma_settled_all_grows(t, base, earlier);
    if i == paths.len() - 1 {
        lemma_prepared_chain_exists(reached, base, paths.last(), k);
    } else {
        lemma_all_prepared_exist(t, base, earlier, i, k);
        lemma_settled_grows(reached, base, paths.last());
    }
}

/// No directory that exists is handed out for creation, and each one that is
/// handed out exists afterwards.
pub proof fn lemma_missing_all_sound(
    t: Set<Seq<char>>,
    base: Seq<char>,
    paths: Seq<Seq<char>>,
    i: int,
)
    requires
        0 <= i < missing_all(t, base, paths).len(),
    ensures
        !t.contains(missing_all(t, base, paths)[i]),
        settled_all(t, base, paths).contains(missing_all(t, base, paths)[i]),
    decreases paths.len(),
{
    if paths.len() > 0 {
        let earlier = paths.drop_last();
        let reached = settled_all(t, base, earlier);
        let first = missing_all(t, base, earlier);
        lemma_settled_all_grows(t, base, earlier);
        lemma_settled_grows(reached, base, paths.last());
        if i < first.len() {
            lemma_missing_all_sound(t, base, earlier, i);
        } else {
            lemma_missing_sound(reached, base, paths.last(), i - first.len());
        }
    }
}

/// Where every target exists already (or its path has no segments),
/// nothing is created and nothing changes.
pub proof fn lemma_existing_targets_skipped(
    t: Set<Seq<char>>,
    base: Seq<char>,
    paths: Seq<Seq<char>>,
)
    requires
        forall|i: int|
            0 <= i < paths.len() ==> segments(paths[i]).len() == 0 || t.contains(
                #[trigger] target(base, paths[i]),
            ),
    ensures
        missing_all(t, base, paths) == Seq::<Seq<char>>::empty(),
        settled_all(t, base, paths) == t,
    decreases paths.len(),
{
    if paths.len() > 0 {
        let earlier = paths.drop_last();
        assert forall|i: int| 0 <= i < earlier.len() implies segments(earlier[i]).len() == 0
            || t.contains(#[trigger] target(base, earlier[i])) by {
            assert(earlier[i] == paths[i]);
            assert(segments(paths[i]).len() == 0 || t.contains(target(base, paths[i])));
        }
        lemma_existing_targets_skipped(t, base, earlier);
        assert(segments(paths.last()).len() == 0 || t.contains(
            target(base, paths[paths.len() - 1]),
        ));
        lemma_existing_target_skipped(t, base, paths.last());
    }
}

/// After several paths have been prepared, the target of each exists.
pub proof fn lemma_all_targets_exist(
    t: Set<Seq<char>>,
    base: Seq<char>,
    paths: Seq<Seq<char>>,
    i: int,
)
    requires
        0 <= i < paths.len(),
        segments(paths[i]).len() > 0,
    ensures
        settled_all(t, base, paths).contains(target(base, paths[i])),
    decreases paths.len(),
{
    let earlier = paths.drop_last();
    lemma_settled_grows(settled_all(t, base, earlier), base, paths.last());
    if i < paths.len() - 1 {
        lemma_all_targets_exist(t, base, earlier, i);
    }
}

/// Preparing the same paths a second time creates nothing and changes
/// nothing.
pub proof fn lemma_prepare_all_idempotent(
    t: Set<Seq<char>>,
    base: Seq<char>,
    paths: Seq<Seq<char>>,
)
    ensures
        missing_all(settled_all(t, base, paths), base, paths) == Seq::<Seq<char>>::empty(),
        settled_all(settled_all(t, base, paths), base, paths) == settled_all(t, base, paths),
{
    let done = settled_all(t, base, paths);
    assert forall|i: int| 0 <= i < paths.len() implies segments(paths[i]).len() == 0
        || done.contains(#[trigger] target(base, paths[i])) by {
        if segments(paths[i]).len() > 0 {
            lemma_all_targets_exist(t, base, paths, i);
        }
    }
    lemma_existing_targets_skipped(done, base, paths);
}

/// Prepares every path of `paths` below `location`, in order: returns the
/// directories to create, in the order in which to create them, and notes
/// them as existing.
pub fn create_manifest_dirs(index: &mut PathIndex, location: &str, paths: &Vec<String>) -> (created:
    Vec<String>)
    ensures
        texts(created@) == missing_all(old(index)@, location@, texts(paths@)),
        final(index)@ == settled_all(old(index)@, location@, texts(paths@)),
{
    let mut created: Vec<String> = Vec::new();
    let ghost t = index@;
    let ghost all = texts(paths@);
    let mut i: usize = 0;
    proof {
        assert(all.take(0) =~= Seq::<Seq<char>>::empty());
        assert(texts(created@) =~= Seq::<Seq<char>>::empty());
    }
    while i < paths.len()
        invariant
            i <= paths.len(),
            all == texts(paths@),
            texts(created@) == missing_all(t, location@, all.take(i as int)),
            index@ == settled_all(t, location@, all.take(i as int)),
        decreases paths.len() - i,
    {
        let ghost before = texts(created@);
        proof {
            assert(all[i as int] == paths[i as int]@);
            assert(all.take(i + 1).drop_last() =~= all.take(i as int));
            assert(all.take(i + 1).last() == all[i as int]);
        }
        let mut more = index.ensure_path(location, paths[i].as_str());
        let ghost added = texts(more@);
        created.append(&mut more);
        assert(texts(created@) =~= before + added);
        i += 1;
    }
    proof {
        assert(all.take(all.len() as int) =~= all);
    }
    created
}

} // verus!
