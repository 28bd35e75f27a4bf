//! First-match search over a sequence, shared by the association lists that
//! back the store.

use vstd::prelude::*;

verus! {

/// The index of the first element of `s` satisfying `p`, or -1 when none
/// does.
pub open spec fn spec_find<T>(s: Seq<T>, p: spec_fn(T) -> bool) -> int
    decreases s.len(),
{
    if s.len() == 0 {
        -1
    } else if p(s[0]) {
        0
    } else {
        let rest = spec_find(s.drop_first(), p);
        if rest < 0 {
            -1
        } else {
            rest + 1
        }
    }
}

/// What `spec_find` returns: a matching index before which nothing matches,
/// or -1 when nothing matches at all.
pub proof fn lemma_find_props<T>(s: Seq<T>, p: spec_fn(T) -> bool)
    ensures
        spec_find(s, p) == -1 || (0 <= spec_find(s, p) < s.len()),
        spec_find(s, p) == -1 ==> forall|j: int| 0 <= j < s.len() ==> !p(s[j]),
        spec_find(s, p) >= 0 ==> p(s[spec_find(s, p)]),
        spec_find(s, p) >= 0 ==> forall|j: int| 0 <= j < spec_find(s, p) ==> !p(s[j]),
    decreases s.len(),
{
    if s.len() > 0 && !p(s[0]) {
        lemma_find_props(s.drop_first(), p);
        assert forall|j: int| 0 <= j < s.len() && spec_find(s, p) == -1 implies !p(s[j]) by {
            if j > 0 {
                assert(!p(s.drop_first()[j - 1]));
            }
        }
        if spec_find(s, p) >= 0 {
            assert(p(s.drop_first()[spec_find(s, p) - 1]));
            assert forall|j: int| 0 <= j < spec_find(s, p) implies !p(s[j]) by {
                if j > 0 {
                    assert(!p(s.drop_first()[j - 1]));
                }
            }
        }
    }
}

/// A loop that scanned a prefix of `s` without a match and stopped at a
/// match found the first one.
pub proof fn lemma_find_at<T>(s: Seq<T>, p: spec_fn(T) -> bool, i: int)
    requires
        0 <= i < s.len(),
        p(s[i]),
        forall|j: int| 0 <= j < i ==> !p(s[j]),
    ensures
        spec_find(s, p) == i,
{
    lemma_find_props(s, p);
    if spec_find(s, p) < i {
        assert(p(s[spec_find(s, p)]));
    }
}

/// A loop that scanned all of `s` without a match proves there is none.
pub proof fn lemma_find_none<T>(s: Seq<T>, p: spec_fn(T) -> bool)
    requires
        forall|j: int| 0 <= j < s.len() ==> !p(s[j]),
    ensures
        spec_find(s, p) == -1,
{
    lemma_find_props(s, p);
}

/// Replacing an element with one the predicate judges the same way leaves
/// the first match where it was.
pub proof fn lemma_find_update<T>(s: Seq<T>, p: spec_fn(T) -> bool, i: int, v: T)
    requires
        0 <= i < s.len(),
        p(v) == p(s[i]),
    ensures
        spec_find(s.update(i, v), p) == spec_find(s, p),
    decreases s.len(),
{
    let su = s.update(i, v);
    if i == 0 {
        assert(su[0] == v);
        if !p(s[0]) {
            assert(su.drop_first() =~= s.drop_first());
        }
    } else {
        assert(su[0] == s[0]);
        if !p(s[0]) {
            assert(su.drop_first() =~= s.drop_first().update(i - 1, v));
            lemma_find_update(s.drop_first(), p, i - 1, v);
        }
    }
}

/// Removing an element the predicate rejects shifts the first match by at
/// most one position and never changes the matched element.
pub proof fn lemma_find_remove<T>(s: Seq<T>, p: spec_fn(T) -> bool, i: int)
    requires
        0 <= i < s.len(),
        !p(s[i]),
    ensures
        ({
            let f = spec_find(s, p);
            let f2 = spec_find(s.remove(i), p);
            &&& (f == -1 ==> f2 == -1)
            &&& (0 <= f < i ==> f2 == f && s.remove(i)[f2] == s[f])
            &&& (f > i ==> f2 == f - 1 && s.remove(i)[f2] == s[f])
        }),
    decreases s.len(),
{
    let sr = s.remove(i);
    let f = spec_find(s, p);
    let f2 = spec_find(sr, p);
    lemma_find_props(s, p);
    lemma_find_props(sr, p);
    if i == 0 {
        assert(sr =~= s.drop_first());
        if f > 0 {
            assert(f2 == f - 1);
            assert(sr[f - 1] == s[f]);
        }
    } else {
        assert(sr[0] == s[0]);
        if p(s[0]) {
            assert(f == 0 && f2 == 0);
        } else {
            assert(sr.drop_first() =~= s.drop_first().remove(i - 1));
            lemma_find_remove(s.drop_first(), p, i - 1);
            let st = s.drop_first();
            let fr = spec_find(st, p);
            let fr2 = spec_find(st.remove(i - 1), p);
            lemma_find_props(st, p);
            lemma_find_props(st.remove(i - 1), p);
            assert(st[i - 1] == s[i]);
            if fr == -1 {
                assert(f == -1 && f2 == -1);
            } else if fr < i - 1 {
                assert(f == fr + 1 && f2 == fr2 + 1 && fr2 == fr);
                assert(sr[f2] == sr.drop_first()[fr2]);
                assert(s[f] == st[fr]);
            } else {
                assert(fr > i - 1);
                assert(f == fr + 1 && f2 == fr2 + 1 && fr2 == fr - 1);
                assert(sr[f2] == sr.drop_first()[fr2]);
                assert(s[f] == st[fr]);
            }
        }
    }
}

/// Where the first match lands after an append at the tail.
pub proof fn lemma_find_push<T>(s: Seq<T>, p: spec_fn(T) -> bool, v: T)
    ensures
        spec_find(s.push(v), p) == (if spec_find(s, p) >= 0 {
            spec_find(s, p)
        } else if p(v) {
            s.len() as int
        } else {
            -1
        }),
    decreases s.len(),
{
    let sp = s.push(v);
    assert(sp.len() == s.len() + 1);
    if s.len() == 0 {
        assert(sp[0] == v);
        if p(v) {
            assert(spec_find(sp, p) == 0);
            assert(spec_find(s, p) == -1);
        } else {
            assert(sp.drop_first() =~= Seq::<T>::empty());
            assert(spec_find(sp.drop_first(), p) == -1);
            assert(spec_find(sp, p) == -1);
        }
    } else {
        assert(sp[0] == s[0]);
        if p(s[0]) {
            assert(spec_find(sp, p) == 0);
            assert(spec_find(s, p) == 0);
        } else {
            assert(sp.drop_first() =~= s.drop_first().push(v));
            lemma_find_push(s.drop_first(), p, v);
            let rest = spec_find(s.drop_first(), p);
            let restp = spec_find(sp.drop_first(), p);
            assert(restp == (if rest >= 0 {
                rest
            } else if p(v) {
                s.drop_first().len() as int
            } else {
                -1
            }));
            if rest >= 0 {
                assert(spec_find(s, p) == rest + 1);
                assert(spec_find(sp, p) == rest + 1);
            } else {
                assert(spec_find(s, p) == -1);
                if p(v) {
                    assert(restp == s.len() - 1);
                    assert(spec_find(sp, p) == s.len() as int);
                } else {
                    assert(restp == -1);
                    assert(spec_find(sp, p) == -1);
                }
            }
        }
    }
}

} // verus!
