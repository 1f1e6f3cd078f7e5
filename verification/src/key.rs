//! Keys into contract state and how to step from one key to the next.
//!
//! A key is a sequence of words. Stepping to the next key treats the key as a
//! big-endian counter whose digits are words running from `i64::MIN` to
//! `i64::MAX`: the last word that is not `i64::MAX` is incremented and every
//! word after it wraps around to `i64::MIN`.
use vstd::prelude::*;

verus! {

/// The key `n` words long whose words are all `i64::MIN`.
pub open spec fn min_key(n: nat) -> Seq<i64> {
    Seq::new(n, |_i: int| i64::MIN)
}

/// Whether every word of `key` is `i64::MAX`, i.e. `key` is the greatest key of its length.
pub open spec fn all_max(key: Seq<i64>) -> bool {
    forall|i: int| 0 <= i < key.len() ==> key[i] == i64::MAX
}

/// The key that follows `key` among the keys of the same length, counting the
/// words as big-endian digits; `None` when `key` is the greatest key of its length.
pub open spec fn key_successor(key: Seq<i64>) -> Option<Seq<i64>>
    decreases key.len(),
{
    if key.len() == 0 {
        None
    } else if key.last() == i64::MAX {
        match key_successor(key.drop_last()) {
            Some(prefix) => Some(prefix.push(i64::MIN)),
            None => None,
        }
    } else {
        Some(key.drop_last().push((key.last() + 1) as i64))
    }
}

/// Lexicographic order on keys of the same length: `a` comes strictly before `b`.
pub open spec fn key_lt(a: Seq<i64>, b: Seq<i64>) -> bool
    decreases a.len(),
{
    if a.len() == 0 || a.len() != b.len() {
        false
    } else {
        key_lt(a.drop_last(), b.drop_last()) || (a.drop_last() == b.drop_last() && a.last()
            < b.last())
    }
}

/// `succ` followed by `n` words of `i64::MIN`, when there is a successor.
pub open spec fn append_min_words(succ: Option<Seq<i64>>, n: nat) -> Option<Seq<i64>> {
    match succ {
        Some(p) => Some(p + min_key(n)),
        None => None,
    }
}

/// No key comes before itself.
pub proof fn lemma_key_lt_irreflexive(a: Seq<i64>)
    ensures
        !key_lt(a, a),
    decreases a.len(),
{
    if a.len() > 0 {
        lemma_key_lt_irreflexive(a.drop_last());
    }
}

/// Lexicographic order on keys is transitive.
pub proof fn lemma_key_lt_transitive(a: Seq<i64>, b: Seq<i64>, c: Seq<i64>)
    requires
        key_lt(a, b),
        key_lt(b, c),
    ensures
        key_lt(a, c),
    decreases a.len(),
{
    if key_lt(a.drop_last(), b.drop_last()) && key_lt(b.drop_last(), c.drop_last()) {
        lemma_key_lt_transitive(a.drop_last(), b.drop_last(), c.drop_last());
    }
}

/// A key has no successor exactly when all of its words are `i64::MAX`.
pub proof fn lemma_successor_none_iff_all_max(key: Seq<i64>)
    ensures
        key_successor(key) is None <==> all_max(key),
    decreases key.len(),
{
    if key.len() > 0 {
        lemma_successor_none_iff_all_max(key.drop_last());
        if key.last() == i64::MAX && all_max(key.drop_last()) {
            assert forall|i: int| 0 <= i < key.len() implies key[i] == i64::MAX by {
                if i < key.len() - 1 {
                    assert(key.drop_last()[i] == key[i]);
                }
            }
        }
        if all_max(key) {
            assert(key[key.len() - 1] == i64::MAX);
            assert forall|i: int| 0 <= i < key.drop_last().len() implies key.drop_last()[i]
                == i64::MAX by {
                assert(key[i] == i64::MAX);
            }
        }
    }
}

/// The successor of a key has the same length, comes after it, and no key of
/// that length lies strictly between the two.
pub proof fn lemma_successor_is_next(key: Seq<i64>, other: Seq<i64>)
    requires
        key_successor(key) is Some,
    ensures
        key_successor(key)->0.len() == key.len(),
        key_lt(key, key_successor(key)->0),
        key_lt(key, other) ==> !key_lt(other, key_successor(key)->0),
    decreases key.len(),
{
    let succ = key_successor(key)->0;
    let kp = key.drop_last();
    if key.last() == i64::MAX {
        lemma_successor_is_next(kp, other.drop_last());
        let p = key_successor(kp)->0;
        assert(succ.drop_last() =~= p);
        if key_lt(key, other) && key_lt(other, succ) {
            // The last word of `key` is the greatest word, so `other` must differ earlier.
            assert(key_lt(kp, other.drop_last()));
            assert(key_lt(other.drop_last(), p));
        }
    } else {
        assert(succ.drop_last() =~= kp);
        lemma_key_lt_irreflexive(kp);
        if key_lt(key, other) && key_lt(other, succ) {
            let op = other.drop_last();
            if key_lt(kp, op) && key_lt(op, kp) {
                lemma_key_lt_transitive(kp, op, kp);
            }
        }
    }
}

proof fn lemma_successor_of_max_suffix(start: Seq<i64>, i: int)
    requires
        0 < i <= start.len(),
        start[i - 1] == i64::MAX,
    ensures
        append_min_words(key_successor(start.take(i)), (start.len() - i) as nat) == append_min_words(
            key_successor(start.take(i - 1)),
            (start.len() - i + 1) as nat,
        ),
{
    let t = start.take(i);
    assert(t.drop_last() =~= start.take(i - 1));
    match key_successor(start.take(i - 1)) {
        Some(p) => {
            assert(p.push(i64::MIN) + min_key((start.len() - i) as nat) =~= p + min_key(
                (start.len() - i + 1) as nat,
            ));
        },
        None => {},
    }
}

/// Calculate the next key, or `None` when every word of `key` is `i64::MAX`.
pub fn next_key(key: Vec<i64>) -> (r: Option<Vec<i64>>)
    ensures
        r is Some <==> key_successor(key@) is Some,
        r is Some ==> r->0@ == key_successor(key@)->0,
{
    let r = next_key_or_wrapped(key);
    match r {
        Ok(k) => Some(k),
        Err(_) => None,
    }
}

/// Calculate the next key. When every word of `key` is `i64::MAX` the counter
/// wraps around: every word has become `i64::MIN` and that key is returned as the error.
pub fn next_key_or_wrapped(key: Vec<i64>) -> (r: Result<Vec<i64>, Vec<i64>>)
    ensures
        key_successor(key@) is Some ==> r is Ok && r->Ok_0@ == key_successor(key@)->0,
        key_successor(key@) is None ==> r is Err && r->Err_0@ == min_key(key@.len()),
{
    let ghost start = key@;
    let mut k = key;
    let len = k.len();
    let mut i = len;
    proof {
        assert(start.take(len as int) =~= start);
        assert(start + min_key(0) =~= start);
        assert(append_min_words(key_successor(start), 0) == key_successor(start));
    }
    while i > 0
        invariant
            i <= len,
            start == key@,
            len == start.len(),
            k@ == start.take(i as int) + min_key((len - i) as nat),
            key_successor(start) == append_min_words(
                key_successor(start.take(i as int)),
                (len - i) as nat,
            ),
        decreases i,
    {
        let w = k[i - 1];
        if w == i64::MAX {
            proof {
                lemma_successor_of_max_suffix(start, i as int);
            }
            k.set(i - 1, i64::MIN);
            i = i - 1;
            assert(k@ =~= start.take(i as int) + min_key((len - i) as nat));
        } else {
            k.set(i - 1, w + 1);
            proof {
                let t = start.take(i as int);
                assert(t.drop_last() =~= start.take(i - 1));
                assert(t.last() == w);
                assert(key_successor(t) == Some(t.drop_last().push((t.last() + 1) as i64)));
                assert(key_successor(start) == Some(
                    start.take(i - 1).push((w + 1) as i64) + min_key((len - i) as nat),
                ));
                assert(k@ =~= start.take(i - 1).push((w + 1) as i64) + min_key((len - i) as nat));
            }
            return Ok(k);
        }
    }
    proof {
        assert(start.take(0) =~= Seq::<i64>::empty());
        assert(k@ =~= min_key(len as nat));
    }
    Err(k)
}

} // verus!
