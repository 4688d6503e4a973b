//! Absolute paths, their ancestors, and the set of paths known to exist.
//!
//! A path is text; `/` separates a directory from what it holds. The
//! ancestors of a path are its prefixes that end just before a separator.
//! [`PathIndex`] models the part of the disk that matters to an install: the
//! paths that exist. Whatever exists has all its ancestors, so the set is
//! closed under taking ancestors.

use vstd::prelude::*;
use vstd::string::*;
use vstd::std_specs::iter::IteratorSpec;
use crate::segments::{segments, split_segments, texts};
use crate::text::{joined, same_text};

verus! {

/// `base` followed by each segment of `segs`, with a separator before each.
pub open spec fn descend(base: Seq<char>, segs: Seq<Seq<char>>) -> Seq<char>
    decreases segs.len(),
{
    if segs.len() == 0 {
        base
    } else {
        descend(base, segs.drop_last()) + seq!['/'] + segs.last()
    }
}

/// The directories passed on the way from `base` down the relative path
/// `rel`, outermost first. `base` itself is not among them.
pub open spec fn chain(base: Seq<char>, rel: Seq<char>) -> Seq<Seq<char>> {
    let segs = segments(rel);
    Seq::new(segs.len(), |k: int| descend(base, segs.take(k + 1)))
}

/// The directory that the relative path `rel` names below `base`.
pub open spec fn target(base: Seq<char>, rel: Seq<char>) -> Seq<char> {
    descend(base, segments(rel))
}

/// Whether a separator stands at position `i` of `p`, after at least one
/// character: `p.take(i)` is then an ancestor of `p`.
pub open spec fn is_cut(p: Seq<char>, i: int) -> bool {
    0 < i < p.len() && p[i] == '/'
}

/// `p` and all its ancestors.
pub open spec fn lineage(p: Seq<char>) -> Set<Seq<char>> {
    Set::new(|q: Seq<char>| q == p || exists|i: int| is_cut(p, i) && q == p.take(i))
}

/// Whether `t` holds every ancestor of each of its members.
pub open spec fn ancestor_closed(t: Set<Seq<char>>) -> bool {
    forall|p: Seq<char>, i: int|
        #![trigger t.contains(p), is_cut(p, i)]
        t.contains(p) && is_cut(p, i) ==> t.contains(p.take(i))
}

/// The lineage of a path is closed under taking ancestors.
pub proof fn lemma_lineage_closed(p: Seq<char>)
    ensures
        ancestor_closed(lineage(p)),
{
    assert forall|q: Seq<char>, i: int|
        #![trigger lineage(p).contains(q), is_cut(q, i)]
        lineage(p).contains(q) && is_cut(q, i) implies lineage(p).contains(q.take(i)) by {
        if q == p {
        } else {
            let j = choose|j: int| is_cut(p, j) && q == p.take(j);
            assert(is_cut(p, i));
            assert(q.take(i) =~= p.take(i));
        }
    }
}

/// A union of closed sets is closed.
pub proof fn lemma_union_closed(a: Set<Seq<char>>, b: Set<Seq<char>>)
    requires
        ancestor_closed(a),
        ancestor_closed(b),
    ensures
        ancestor_closed(a + b),
{
    assert forall|p: Seq<char>, i: int|
        #![trigger (a + b).contains(p), is_cut(p, i)]
        (a + b).contains(p) && is_cut(p, i) implies (a + b).contains(p.take(i)) by {
        if a.contains(p) {
            assert(a.contains(p.take(i)));
        } else {
            assert(b.contains(p));
            assert(b.contains(p.take(i)));
        }
    }
}

/// Each directory of a chain is the target or one of its ancestors.
pub proof fn lemma_chain_in_lineage(base: Seq<char>, rel: Seq<char>, k: int)
    requires
        0 <= k < chain(base, rel).len(),
    ensures
        lineage(target(base, rel)).contains(chain(base, rel)[k]),
{
    let segs = segments(rel);
    lemma_descend_prefix(base, segs, k + 1);
    if k + 1 == segs.len() {
        assert(segs.take(k + 1) =~= segs);
    } else {
        let d = descend(base, segs.take(k + 1));
        assert(is_cut(target(base, rel), d.len() as int));
    }
}

/// Descending fewer segments gives a prefix of descending all of them, and a
/// separator follows that prefix.
pub proof fn lemma_descend_prefix(base: Seq<char>, segs: Seq<Seq<char>>, k: int)
    requires
        0 <= k <= segs.len(),
    ensures
        descend(base, segs.take(k)).len() <= descend(base, segs).len(),
        descend(base, segs.take(k)) == descend(base, segs).take(
            descend(base, segs.take(k)).len() as int,
        ),
        k < segs.len() ==> descend(base, segs.take(k)).len() < descend(base, segs).len()
            && descend(base, segs)[descend(base, segs.take(k)).len() as int] == '/',
        k > 0 ==> descend(base, segs.take(k)).len() > 0,
    decreases segs.len(),
{
    let whole = descend(base, segs);
    if k == segs.len() {
        assert(segs.take(k) =~= segs);
        assert(whole.take(whole.len() as int) =~= whole);
    } else {
        let init = segs.drop_last();
        let shorter = descend(base, init);
        assert(init.take(k) =~= segs.take(k));
        lemma_descend_prefix(base, init, k);
        let part = descend(base, segs.take(k));
        assert(whole == shorter + seq!['/'] + segs.last());
        assert(part =~= whole.take(part.len() as int));
        if k < init.len() {
            assert(whole[part.len() as int] == shorter[part.len() as int]);
        } else {
            assert(init.take(k) =~= init);
        }
    }
}

/// The last directory of a non-empty chain is the target.
pub proof fn lemma_chain_last(base: Seq<char>, rel: Seq<char>)
    requires
        chain(base, rel).len() > 0,
    ensures
        chain(base, rel).last() == target(base, rel),
{
    let segs = segments(rel);
    assert(segs.take(segs.len() as int) =~= segs);
}

/// The directories from `base` down `rel`, outermost first.
pub fn directory_chain(base: &str, rel: &str) -> (dirs: Vec<String>)
    ensures
        texts(dirs@) == chain(base@, rel@),
{
    let segs = split_segments(rel);
    let mut dirs: Vec<String> = Vec::new();
    let mut current = String::from_str(base);
    let mut k: usize = 0;
    proof {
        assert(segments(rel@).take(0) =~= Seq::<Seq<char>>::empty());
    }
    while k < segs.len()
        invariant
            k <= segs.len(),
            texts(segs@) == segments(rel@),
            current@ == descend(base@, segments(rel@).take(k as int)),
            dirs.len() == k,
            forall|j: int| 0 <= j < k ==> (#[trigger] dirs[j])@ == chain(base@, rel@)[j],
        decreases segs.len() - k,
    {
        let ghost all = segments(rel@);
        proof {
            assert(texts(segs@)[k as int] == segs[k as int]@);
            assert(all.take(k + 1).drop_last() =~= all.take(k as int));
            assert(all.take(k + 1).last() == all[k as int]);
        }
        current = joined(current.as_str(), segs[k].as_str());
        dirs.push(current.clone());
        k += 1;
    }
    assert(texts(dirs@) =~= chain(base@, rel@));
    dirs
}

/// The ancestors of `p` that end before position `i`.
pub open spec fn ancestors_before(p: Seq<char>, i: int) -> Set<Seq<char>> {
    Set::new(|q: Seq<char>| exists|j: int| #[trigger] is_cut(p, j) && j < i && q == p.take(j))
}

/// One more position adds the ancestor that ends there, if there is one.
pub proof fn lemma_ancestors_step(p: Seq<char>, i: int)
    ensures
        is_cut(p, i) ==> ancestors_before(p, i + 1) == ancestors_before(p, i).insert(p.take(i)),
        !is_cut(p, i) ==> ancestors_before(p, i + 1) == ancestors_before(p, i),
{
    let wider = ancestors_before(p, i + 1);
    let narrow = ancestors_before(p, i);
    assert forall|q: Seq<char>| wider.contains(q) <==> narrow.contains(q) || (is_cut(p, i) && q
        == p.take(i)) by {
        if wider.contains(q) {
            let j = choose|j: int| #[trigger] is_cut(p, j) && j < i + 1 && q == p.take(j);
            if j < i {
                assert(is_cut(p, j) && j < i && q == p.take(j));
            }
        }
        if narrow.contains(q) {
            let j = choose|j: int| #[trigger] is_cut(p, j) && j < i && q == p.take(j);
            assert(is_cut(p, j) && j < i + 1 && q == p.take(j));
        }
        if is_cut(p, i) && q == p.take(i) {
            assert(is_cut(p, i) && i < i + 1 && q == p.take(i));
        }
    }
    if is_cut(p, i) {
        assert(wider =~= narrow.insert(p.take(i)));
    } else {
        assert(wider =~= narrow);
    }
}

/// The members of a sequence with one more element at its end.
pub proof fn lemma_pushed_set(was: Seq<Seq<char>>, entry: Seq<char>)
    ensures
        was.push(entry).to_set() == was.to_set().insert(entry),
{
    let now = was.push(entry);
    assert forall|q: Seq<char>| now.to_set().contains(q) <==> was.to_set().insert(entry).contains(
        q,
    ) by {
        if now.contains(q) {
            let j = choose|j: int| 0 <= j < now.len() && now[j] == q;
            if j < was.len() {
                assert(was[j] == q);
            }
        }
        if was.contains(q) {
            let j = choose|j: int| 0 <= j < was.len() && was[j] == q;
            assert(now[j] == q);
        }
        if q == entry {
            assert(now[was.len() as int] == q);
        }
    }
    assert(now.to_set() =~= was.to_set().insert(entry));
}

/// The paths known to exist on disk.
///
/// Whatever exists has all its ancestors, so the set is closed under taking
/// ancestors: [`PathIndex::record`] adds a path together with its lineage.
pub struct PathIndex {
    known: Vec<String>,
}

impl View for PathIndex {
    type V = Set<Seq<char>>;

    closed spec fn view(&self) -> Set<Seq<char>> {
        texts(self.known@).to_set()
    }
}

impl PathIndex {
    /// Every member has its ancestors beside it.
    #[verifier::type_invariant]
    pub open spec fn well_formed(&self) -> bool {
        ancestor_closed(self@)
    }

    /// An index that knows of no path.
    pub fn new() -> (index: PathIndex)
        ensures
            index@ == Set::<Seq<char>>::empty(),
    {
        let index = PathIndex { known: Vec::new() };
        assert(index@ =~= Set::<Seq<char>>::empty());
        index
    }

    /// Whether `path` is known to exist.
    pub fn contains(&self, path: &str) -> (found: bool)
        ensures
            found == self@.contains(path@),
    {
        let mut i: usize = 0;
        while i < self.known.len()
            invariant
                i <= self.known.len(),
                forall|j: int| 0 <= j < i ==> (#[trigger] self.known[j])@ != path@,
            decreases self.known.len() - i,
        {
            if same_text(self.known[i].as_str(), path) {
                assert(texts(self.known@)[i as int] == path@);
                return true;
            }
            i += 1;
        }
        assert forall|j: int| 0 <= j < texts(self.known@).len() implies texts(self.known@)[j]
            != path@ by {
            assert(texts(self.known@)[j] == self.known[j]@);
        }
        false
    }

    /// Adds one path whose ancestors are all known already.
    fn add(&mut self, path: String)
        requires
            forall|i: int| is_cut(path@, i) ==> old(self)@.contains(#[trigger] path@.take(i)),
        ensures
            final(self)@ == old(self)@.insert(path@),
    {
        proof {
            use_type_invariant(&*self);
        }
        let ghost before = self@;
        let ghost entry = path@;
        let ghost was = texts(self.known@);
        let mut known: Vec<String> = Vec::new();
        std::mem::swap(&mut known, &mut self.known);
        assert(texts(self.known@).to_set() =~= Set::<Seq<char>>::empty());
        known.push(path);
        proof {
            let now = texts(known@);
            assert(now =~= was.push(entry));
            lemma_pushed_set(was, entry);
            assert forall|p: Seq<char>, i: int|
                #![trigger now.to_set().contains(p), is_cut(p, i)]
                now.to_set().contains(p) && is_cut(p, i) implies now.to_set().contains(
                p.take(i),
            ) by {
                if p == entry {
                    assert(before.contains(entry.take(i)));
                } else {
                    assert(before.contains(p));
                }
            }
        }
        self.known = known;
    }

    /// Notes that `path` exists, and with it each of its ancestors.
    pub fn record(&mut self, path: &str)
        ensures
            final(self)@ == old(self)@ + lineage(path@),
    {
        let n = path.unicode_len();
        let ghost p = path@;
        let ghost before = self@;
        let mut it = path.chars();
        let mut i: usize = 0;
        proof {
            assert(p.skip(0) =~= p);
            assert(self@ =~= before + ancestors_before(p, 0));
        }
        loop
            invariant_except_break
                it.obeys_prophetic_iter_laws(),
                it.remaining() == p.skip(i as int),
            invariant
                p == path@,
                n == p.len(),
                i <= n,
                self@ == before + ancestors_before(p, i as int),
            ensures
                i == n,
            decreases n - i,
        {
            match it.next() {
                Some(c) => {
                    assert(c == p[i as int]);
                    assert(p.skip(i as int).drop_first() =~= p.skip(i + 1));
                    let ghost reached = self@;
                    if c == '/' && i > 0 {
                        assert(is_cut(p, i as int));
                        let ancestor = path.substring_char(0, i);
                        assert(ancestor@ =~= p.take(i as int));
                        if !self.contains(ancestor) {
                            proof {
                                assert forall|k: int| is_cut(ancestor@, k) implies self@.contains(
                                    #[trigger] ancestor@.take(k),
                                ) by {
                                    assert(is_cut(p, k));
                                    assert(ancestor@.take(k) =~= p.take(k));
                                    assert(ancestors_before(p, i as int).contains(p.take(k)));
                                }
                            }
                            self.add(ancestor.to_owned());
                        }
                        assert(self@ =~= reached.insert(p.take(i as int)));
                    }
                    proof {
                        lemma_ancestors_step(p, i as int);
                        assert(self@ =~= before + ancestors_before(p, i + 1));
                    }
                    i += 1;
                },
                None => {
                    break ;
                },
            }
        }
        let ghost reached = self@;
        if !self.contains(path) {
            proof {
                assert forall|k: int| is_cut(p, k) implies self@.contains(#[trigger] p.take(k)) by {
                    assert(ancestors_before(p, n as int).contains(p.take(k)));
                }
            }
            self.add(path.to_owned());
        }
        proof {
            assert(self@ =~= reached.insert(p));
            assert forall|q: Seq<char>| lineage(p).contains(q) <==> q == p || ancestors_before(
                p,
                n as int,
            ).contains(q) by {
                if lineage(p).contains(q) && q != p {
                    let j = choose|j: int| is_cut(p, j) && q == p.take(j);
                    assert(is_cut(p, j) && j < n && q == p.take(j));
                }
            }
            assert(self@ =~= before + lineage(p));
        }
    }
}

} // verus!
