//! Text as sequences of characters: comparing, joining, searching and
//! replacing.

use vstd::prelude::*;
use vstd::string::*;
use vstd::utf8::*;
use vstd::std_specs::iter::IteratorSpec;

verus! {

/// Whether two pieces of text hold the same characters.
pub fn same_text(a: &str, b: &str) -> (r: bool)
    ensures
        r == (a@ == b@),
{
    let x = a.as_bytes();
    let y = b.as_bytes();
    proof {
        encode_utf8_decode_utf8(a@);
        encode_utf8_decode_utf8(b@);
    }
    if x.len() != y.len() {
        return false;
    }
    let mut i: usize = 0;
    while i < x.len()
        invariant
            i <= x.len(),
            x.len() == y.len(),
            x@ == a.spec_bytes(),
            y@ == b.spec_bytes(),
            forall|j: int| 0 <= j < i ==> x@[j] == y@[j],
        decreases x.len() - i,
    {
        if x[i] != y[i] {
            return false;
        }
        i += 1;
    }
    assert(x@ =~= y@);
    true
}

/// `base` and `name` joined by one separator.
pub fn joined(base: &str, name: &str) -> (r: String)
    ensures
        r@ == base@ + seq!['/'] + name@,
{
    let mut r = String::from_str(base);
    r.append("/");
    r.append(name);
    proof {
        reveal_strlit("/");
        assert("/"@ =~= seq!['/']);
    }
    r
}

/// Whether `pat` stands in `s` at position `i`.
pub open spec fn occurs_at(s: Seq<char>, pat: Seq<char>, i: int) -> bool {
    0 <= i && i + pat.len() <= s.len() && s.subrange(i, i + pat.len()) == pat
}

/// Whether `pat` stands somewhere in `s`.
pub open spec fn occurs_in(s: Seq<char>, pat: Seq<char>) -> bool {
    exists|i: int| occurs_at(s, pat, i)
}

/// `s` with every occurrence of `from` replaced by `to`, found from left to
/// right without overlap. An empty `from` occurs nowhere.
pub open spec fn replaced(s: Seq<char>, from: Seq<char>, to: Seq<char>) -> Seq<char>
    decreases s.len(),
{
    if from.len() == 0 || s.len() < from.len() {
        s
    } else if s.take(from.len() as int) == from {
        to + replaced(s.skip(from.len() as int), from, to)
    } else {
        s.take(1) + replaced(s.skip(1), from, to)
    }
}

/// The characters of `s`, in order.
pub fn to_chars(s: &str) -> (v: Vec<char>)
    ensures
        v@ == s@,
{
    let mut v: Vec<char> = Vec::new();
    let mut it = s.chars();
    loop
        invariant_except_break
            it.obeys_prophetic_iter_laws(),
            v@ + it.remaining() == s@,
        ensures
            v@ == s@,
        decreases s@.len() - v@.len(),
    {
        match it.next() {
            Some(c) => {
                let ghost rest = it.remaining();
                let ghost before = v@;
                v.push(c);
                assert(v@ + rest =~= before + (seq![c] + rest));
            },
            None => {
                assert(v@ =~= s@);
                break ;
            },
        }
    }
    v
}

/// Whether `pat` stands in `hay` at position `i`.
pub fn matches_at(hay: &Vec<char>, pat: &Vec<char>, i: usize) -> (r: bool)
    ensures
        r == occurs_at(hay@, pat@, i as int),
{
    if pat.len() > hay.len() || i > hay.len() - pat.len() {
        return false;
    }
    let mut k: usize = 0;
    while k < pat.len()
        invariant
            k <= pat.len(),
            i + pat.len() <= hay.len(),
            forall|j: int| 0 <= j < k ==> hay@[i + j] == pat@[j],
        decreases pat.len() - k,
    {
        if hay[i + k] != pat[k] {
            assert(hay@.subrange(i as int, i + pat.len())[k as int] != pat@[k as int]);
            return false;
        }
        k += 1;
    }
    assert(hay@.subrange(i as int, i + pat.len()) =~= pat@);
    true
}

/// Whether `pat` stands somewhere in `s`.
pub fn contains_text(s: &str, pat: &str) -> (r: bool)
    ensures
        r == occurs_in(s@, pat@),
{
    let hay = to_chars(s);
    let needle = to_chars(pat);
    let mut i: usize = 0;
    while i < hay.len()
        invariant
            i <= hay.len(),
            hay@ == s@,
            needle@ == pat@,
            forall|j: int| 0 <= j < i ==> !occurs_at(s@, pat@, j),
        decreases hay.len() - i,
    {
        if matches_at(&hay, &needle, i) {
            return true;
        }
        i += 1;
    }
    matches_at(&hay, &needle, i)
}

/// `s` with every occurrence of `from` replaced by `to`.
pub fn replace_text(s: &str, from: &str, to: &str) -> (out: String)
    ensures
        out@ == replaced(s@, from@, to@),
{
    let hay = to_chars(s);
    let needle = to_chars(from);
    let n = hay.len();
    let m = needle.len();
    let ghost whole = s@;
    if m == 0 || n < m {
        return String::from_str(s);
    }
    let mut out = String::new();
    let mut i: usize = 0;
    let mut copied: usize = 0;
    proof {
        assert(whole.skip(0) =~= whole);
        assert(out@ + whole.subrange(0, 0) + replaced(whole, from@, to@) =~= replaced(
            whole,
            from@,
            to@,
        ));
    }
    while i <= n - m
        invariant
            copied <= i <= n,
            0 < m <= n,
            hay@ == whole,
            whole == s@,
            needle@ == from@,
            n == whole.len(),
            m == from@.len(),
            out@ + whole.subrange(copied as int, i as int) + replaced(
                whole.skip(i as int),
                from@,
                to@,
            ) == replaced(whole, from@, to@),
        decreases n - i,
    {
        let ghost rest = whole.skip(i as int);
        proof {
            assert(rest.take(m as int) =~= whole.subrange(i as int, i + m));
        }
        if matches_at(&hay, &needle, i) {
            let chunk = s.substring_char(copied, i);
            out.append(chunk);
            out.append(to);
            proof {
                assert(rest.skip(m as int) =~= whole.skip(i + m));
                assert(whole.subrange(i + m, i + m) =~= Seq::<char>::empty());
            }
            i += m;
            copied = i;
        } else {
            proof {
                assert(rest.skip(1) =~= whole.skip(i + 1));
                assert(whole.subrange(copied as int, i as int) + rest.take(1) =~= whole.subrange(
                    copied as int,
                    i + 1,
                ));
                assert(out@ + whole.subrange(copied as int, i as int) + (rest.take(1) + replaced(
                    whole.skip(i + 1),
                    from@,
                    to@,
                )) =~= out@ + whole.subrange(copied as int, i + 1) + replaced(
                    whole.skip(i + 1),
                    from@,
                    to@,
                ));
            }
            i += 1;
        }
    }
    let tail = s.substring_char(copied, n);
    proof {
        assert(whole.subrange(copied as int, i as int) + whole.skip(i as int) =~= whole.subrange(
            copied as int,
            n as int,
        ));
        assert(out@ + whole.subrange(copied as int, i as int) + whole.skip(i as int) =~= out@
            + whole.subrange(copied as int, n as int));
    }
    out.append(tail);
    out
}

} // verus!
