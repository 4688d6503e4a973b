//! Relative paths as sequences of segments.
//!
//! A relative path is text in which `/` separates segments. Empty segments
//! (a leading, trailing or doubled separator) name nothing and are skipped.

use vstd::prelude::*;
use vstd::string::*;
use vstd::std_specs::iter::IteratorSpec;

verus! {

/// The view of each text of `v`, in order.
pub open spec fn texts(v: Seq<String>) -> Seq<Seq<char>> {
    Seq::new(v.len(), |i: int| v[i]@)
}

/// Number of characters of `s` before its first separator (all of them if
/// `s` holds none).
pub open spec fn head_len(s: Seq<char>) -> nat
    decreases s.len(),
{
    if s.len() == 0 || s[0] == '/' {
        0
    } else {
        1 + head_len(s.skip(1))
    }
}

/// The non-empty segments of the relative path `s`, in order.
pub open spec fn segments(s: Seq<char>) -> Seq<Seq<char>>
    decreases s.len(),
{
    let k = head_len(s) as int;
    if s.len() == 0 {
        Seq::empty()
    } else if k >= s.len() {
        seq![s]
    } else if k == 0 {
        segments(s.skip(1))
    } else {
        seq![s.take(k)] + segments(s.skip(k + 1))
    }
}

/// `head_len(s)` is the position of the first separator.
pub proof fn lemma_head_len(s: Seq<char>, k: int)
    requires
        0 <= k <= s.len(),
        forall|j: int| 0 <= j < k ==> s[j] != '/',
        k == s.len() || s[k] == '/',
    ensures
        head_len(s) == k,
    decreases k,
{
    if k > 0 {
        let t = s.skip(1);
        assert forall|j: int| 0 <= j < k - 1 implies t[j] != '/' by {
            assert(t[j] == s[j + 1]);
        }
        lemma_head_len(t, k - 1);
    }
}

/// What the segments of `s` from `start` on are, once the segment that
/// begins at `start` is known to end at `end`.
pub proof fn lemma_segments_step(s: Seq<char>, start: int, end: int)
    requires
        0 <= start <= end <= s.len(),
        forall|j: int| start <= j < end ==> s[j] != '/',
        end == s.len() || s[end] == '/',
    ensures
        start == end && end == s.len() ==> segments(s.skip(start)) == Seq::<Seq<char>>::empty(),
        start < end && end == s.len() ==> segments(s.skip(start)) == seq![s.subrange(start, end)],
        start == end && end < s.len() ==> segments(s.skip(start)) == segments(s.skip(end + 1)),
        start < end && end < s.len() ==> segments(s.skip(start)) == seq![s.subrange(start, end)]
            + segments(s.skip(end + 1)),
{
    let t = s.skip(start);
    let k = end - start;
    assert forall|j: int| 0 <= j < k implies t[j] != '/' by {
        assert(t[j] == s[start + j]);
    }
    lemma_head_len(t, k);
    if end < s.len() {
        assert(t.skip(k + 1) =~= s.skip(end + 1));
    }
    if start < end {
        assert(t.take(k) =~= s.subrange(start, end));
        assert(t =~= s.subrange(start, s.len() as int));
    }
}

/// Every segment is non-empty and holds no separator.
pub proof fn lemma_segments_plain(s: Seq<char>)
    ensures
        forall|i: int, j: int|
            0 <= i < segments(s).len() && 0 <= j < segments(s)[i].len() ==> #[trigger] segments(
                s,
            )[i][j] != '/',
        forall|i: int| 0 <= i < segments(s).len() ==> (#[trigger] segments(s)[i]).len() > 0,
    decreases s.len(),
{
    let k = head_len(s) as int;
    lemma_head_len_bound(s);
    if s.len() == 0 {
    } else if k >= s.len() {
        assert(segments(s) =~= seq![s]);
    } else if k == 0 {
        lemma_segments_plain(s.skip(1));
    } else {
        let rest = segments(s.skip(k + 1));
        lemma_segments_plain(s.skip(k + 1));
        assert(segments(s) =~= seq![s.take(k)] + rest);
        assert forall|i: int, j: int|
            0 <= i < segments(s).len() && 0 <= j < segments(s)[i].len() implies #[trigger] segments(
            s,
        )[i][j] != '/' by {
            if i > 0 {
                assert(segments(s)[i] == rest[i - 1]);
            }
        }
        assert forall|i: int| 0 <= i < segments(s).len() implies (#[trigger] segments(
            s,
        )[i]).len() > 0 by {
            if i > 0 {
                assert(segments(s)[i] == rest[i - 1]);
            }
        }
    }
}

/// No separator stands before `head_len(s)`, and one stands at it unless it
/// is the end of `s`.
pub proof fn lemma_head_len_bound(s: Seq<char>)
    ensures
        head_len(s) <= s.len(),
        forall|j: int| 0 <= j < head_len(s) ==> s[j] != '/',
        head_len(s) < s.len() ==> s[head_len(s) as int] == '/',
    decreases s.len(),
{
    if s.len() == 0 || s[0] == '/' {
    } else {
        let t = s.skip(1);
        lemma_head_len_bound(t);
        assert forall|j: int| 0 <= j < head_len(s) implies s[j] != '/' by {
            if j > 0 {
                assert(t[j - 1] == s[j]);
            }
        }
    }
}

/// Splits the relative path `rel` into its non-empty segments.
pub fn split_segments(rel: &str) -> (segs: Vec<String>)
    ensures
        texts(segs@) == segments(rel@),
{
    let n = rel.unicode_len();
    let mut segs: Vec<String> = Vec::new();
    let mut it = rel.chars();
    let mut i: usize = 0;
    let mut start: usize = 0;
    let ghost s = rel@;
    proof {
        assert(s.skip(0) =~= s);
        assert(texts(segs@) =~= Seq::<Seq<char>>::empty());
    }
    loop
        invariant_except_break
            it.obeys_prophetic_iter_laws(),
            it.remaining() == s.skip(i as int),
            start <= i <= n,
            forall|j: int| start <= j < i ==> s[j] != '/',
            texts(segs@) + segments(s.skip(start as int)) == segments(s),
        invariant
            s == rel@,
            n == s.len(),
        ensures
            texts(segs@) == segments(s),
        decreases n - i,
    {
        match it.next() {
            Some(c) => {
                assert(c == s[i as int]);
                assert(s.skip(i as int).drop_first() =~= s.skip(i + 1));
                if c == '/' {
                    proof {
                        lemma_segments_step(s, start as int, i as int);
                    }
                    if start < i {
                        let piece = rel.substring_char(start, i);
                        let ghost before = texts(segs@);
                        segs.push(piece.to_owned());
                        assert(texts(segs@) =~= before + seq![s.subrange(start as int, i as int)]);
                        assert(texts(segs@) + segments(s.skip(i + 1)) =~= before + (seq![
                            s.subrange(start as int, i as int),
                        ] + segments(s.skip(i + 1))));
                    }
                    start = i + 1;
                }
                i += 1;
            },
            None => {
                assert(i == n);
                proof {
                    lemma_segments_step(s, start as int, i as int);
                }
                if start < i {
                    let piece = rel.substring_char(start, i);
                    let ghost before = texts(segs@);
                    segs.push(piece.to_owned());
                    assert(texts(segs@) =~= before + seq![s.subrange(start as int, i as int)]);
                }
                break ;
            },
        }
    }
    segs
}

} // verus!
