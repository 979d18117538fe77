//! Ordering texts by length, shortest first, without disturbing the order
//! of texts that are equally long.

use crate::text::{byte_length, length_of};
use vstd::prelude::*;

verus! {

/// No text is followed by a shorter one.
pub open spec fn length_sorted(texts: Seq<Seq<char>>) -> bool {
    forall|i: int, j: int|
        0 <= i <= j < texts.len() ==> byte_length(#[trigger] texts[i]) <= byte_length(
            #[trigger] texts[j],
        )
}

/// The texts of length `n`, in the order in which they stand.
pub open spec fn of_length(texts: Seq<Seq<char>>, n: nat) -> Seq<Seq<char>> {
    texts.filter(|text: Seq<char>| byte_length(text) == n)
}

/// `sorted` is `given` in ascending order of length, with the texts of each
/// length in the order in which `given` has them.
pub open spec fn stably_sorts(sorted: Seq<Seq<char>>, given: Seq<Seq<char>>) -> bool {
    &&& length_sorted(sorted)
    &&& forall|n: nat| #[trigger] of_length(sorted, n) == of_length(given, n)
}

/// What a text added at the end does to the texts of one length.
pub proof fn lemma_of_length_push(texts: Seq<Seq<char>>, text: Seq<char>, n: nat)
    ensures
        of_length(texts.push(text), n) == if byte_length(text) == n {
            of_length(texts, n).push(text)
        } else {
            of_length(texts, n)
        },
{
    reveal(Seq::filter);
    assert(texts.push(text).drop_last() =~= texts);
}

/// What a text put in before position `at` does to the texts of one length,
/// where none of its own length stands at or behind `at`.
proof fn lemma_of_length_insert(texts: Seq<Seq<char>>, at: int, text: Seq<char>, n: nat)
    requires
        0 <= at <= texts.len(),
        forall|k: int| at <= k < texts.len() ==> byte_length(#[trigger] texts[k]) != byte_length(text),
    ensures
        of_length(texts.insert(at, text), n) == if byte_length(text) == n {
            of_length(texts, n).push(text)
        } else {
            of_length(texts, n)
        },
{
    let keep = |t: Seq<char>| byte_length(t) == n;
    let front = texts.take(at);
    let back = texts.skip(at);
    assert(texts =~= front + back);
    assert(texts.insert(at, text) =~= front.push(text) + back);
    Seq::filter_distributes_over_add(front, back, keep);
    Seq::filter_distributes_over_add(front.push(text), back, keep);
    lemma_of_length_push(front, text, n);
    if byte_length(text) == n {
        back.lemma_all_neg_filter_empty(keep);
        assert(of_length(back, n) =~= Seq::empty());
        assert(front.filter(keep) + back.filter(keep) =~= front.filter(keep));
        assert(front.push(text).filter(keep) + back.filter(keep) =~= front.filter(keep).push(
            text,
        ));
    }
}

/// An ordered sequence stays ordered where a text goes in behind all that
/// are no longer than it and before all that are longer.
proof fn lemma_insert_keeps_order(texts: Seq<Seq<char>>, at: int, text: Seq<char>)
    requires
        0 <= at <= texts.len(),
        length_sorted(texts),
        forall|k: int| 0 <= k < at ==> byte_length(#[trigger] texts[k]) <= byte_length(text),
        forall|k: int| at <= k < texts.len() ==> byte_length(#[trigger] texts[k]) > byte_length(text),
    ensures
        length_sorted(texts.insert(at, text)),
{
    let out = texts.insert(at, text);
    texts.insert_ensures(at, text);
    assert forall|i: int, j: int| 0 <= i <= j < out.len() implies byte_length(
        #[trigger] out[i],
    ) <= byte_length(#[trigger] out[j]) by {
        if i < at {
            assert(out[i] == texts[i]);
        } else if i > at {
            assert(out[i] == texts[i - 1]);
        }
        if j < at {
            assert(out[j] == texts[j]);
        } else if j > at {
            assert(out[j] == texts[j - 1]);
        }
    }
}

/// Every text of a stable ordering occurs in what was given, and the other
/// way round.
pub proof fn lemma_same_texts(sorted: Seq<Seq<char>>, given: Seq<Seq<char>>)
    requires
        stably_sorts(sorted, given),
    ensures
        forall|text: Seq<char>| sorted.contains(text) <==> given.contains(text),
{
    assert forall|text: Seq<char>| sorted.contains(text) <==> given.contains(text) by {
        let n = byte_length(text);
        let keep = |t: Seq<char>| byte_length(t) == n;
        assert(of_length(sorted, n) == of_length(given, n));
        if sorted.contains(text) {
            let i = choose|i: int| 0 <= i < sorted.len() && sorted[i] == text;
            sorted.lemma_filter_contains(keep, i);
            given.lemma_filter_contains_rev(keep, text);
        }
        if given.contains(text) {
            let i = choose|i: int| 0 <= i < given.len() && given[i] == text;
            given.lemma_filter_contains(keep, i);
            sorted.lemma_filter_contains_rev(keep, text);
        }
    }
}

/// Two ordered sequences that hold the same texts of every length, in the
/// same order, are one sequence: a stable ordering by length is unique.
pub proof fn lemma_stable_order_unique(a: Seq<Seq<char>>, b: Seq<Seq<char>>)
    requires
        length_sorted(a),
        length_sorted(b),
        forall|n: nat| #[trigger] of_length(a, n) == of_length(b, n),
    ensures
        a == b,
    decreases a.len(),
{
    reveal(Seq::filter);
    if a.len() == 0 {
        if b.len() > 0 {
            let m = byte_length(b.last());
            assert(of_length(a, m) == of_length(b, m));
            assert(of_length(b, m).len() > 0);
        }
        assert(a =~= b);
    } else {
        let x = a.last();
        let n = byte_length(x);
        assert(of_length(a, n) == of_length(b, n));
        assert(of_length(a, n).last() == x);
        assert(b.len() > 0);
        let y = b.last();
        let m = byte_length(y);
        assert(of_length(a, m) == of_length(b, m));
        assert(of_length(b, m).last() == y);
        assert(m == n) by {
            let keep_m = |t: Seq<char>| byte_length(t) == m;
            let keep_n = |t: Seq<char>| byte_length(t) == n;
            assert(of_length(a, m).contains(y)) by {
                assert(of_length(a, m)[of_length(a, m).len() - 1] == y);
            }
            a.lemma_filter_contains_rev(keep_m, y);
            let i = choose|i: int| 0 <= i < a.len() && a[i] == y;
            assert(byte_length(a[i]) <= byte_length(a[a.len() - 1]));
            assert(of_length(b, n).contains(x)) by {
                assert(of_length(b, n)[of_length(b, n).len() - 1] == x);
            }
            b.lemma_filter_contains_rev(keep_n, x);
            let j = choose|j: int| 0 <= j < b.len() && b[j] == x;
            assert(byte_length(b[j]) <= byte_length(b[b.len() - 1]));
        }
        assert(x == y);
        let short_a = a.drop_last();
        let short_b = b.drop_last();
        assert(a =~= short_a.push(x));
        assert(b =~= short_b.push(x));
        assert forall|k: nat| #[trigger] of_length(short_a, k) == of_length(short_b, k) by {
            lemma_of_length_push(short_a, x, k);
            lemma_of_length_push(short_b, x, k);
            assert(of_length(a, k) == of_length(b, k));
            if k == n {
                assert(of_length(short_a, k) =~= of_length(short_a, k).push(x).drop_last());
                assert(of_length(short_b, k) =~= of_length(short_b, k).push(x).drop_last());
            }
        }
        assert(length_sorted(short_a)) by {
            assert forall|i: int, j: int| 0 <= i <= j < short_a.len() implies byte_length(
                #[trigger] short_a[i],
            ) <= byte_length(#[trigger] short_a[j]) by {
                assert(short_a[i] == a[i] && short_a[j] == a[j]);
            }
        }
        assert(length_sorted(short_b)) by {
            assert forall|i: int, j: int| 0 <= i <= j < short_b.len() implies byte_length(
                #[trigger] short_b[i],
            ) <= byte_length(#[trigger] short_b[j]) by {
                assert(short_b[i] == b[i] && short_b[j] == b[j]);
            }
        }
        lemma_stable_order_unique(short_a, short_b);
    }
}

/// Ordering is idempotent: what is in order already is its own stable
/// ordering, and no other.
pub proof fn law_ordered_stays(given: Seq<Seq<char>>, sorted: Seq<Seq<char>>)
    requires
        length_sorted(given),
        stably_sorts(sorted, given),
    ensures
        sorted == given,
{
    lemma_stable_order_unique(sorted, given);
}

/// Ordering what was ordered changes nothing.
pub proof fn law_ordering_twice(given: Seq<Seq<char>>, once: Seq<Seq<char>>, twice: Seq<Seq<char>>)
    requires
        stably_sorts(once, given),
        stably_sorts(twice, once),
    ensures
        twice == once,
        stably_sorts(twice, given),
{
    lemma_stable_order_unique(twice, once);
}

/// Sorts texts by their length in bytes, shortest first. Texts of equal
/// length keep the order in which they came.
pub fn sort_by_length(texts: &Vec<String>) -> (sorted: Vec<String>)
    ensures
        stably_sorts(sorted.deep_view(), texts.deep_view()),
        sorted.len() == texts.len(),
{
    let mut sorted: Vec<String> = Vec::new();
    let mut done: usize = 0;
    proof {
        assert(texts.deep_view().take(0) =~= sorted.deep_view());
    }
    while done < texts.len()
        invariant
            done <= texts.len(),
            sorted.len() == done,
            stably_sorts(sorted.deep_view(), texts.deep_view().take(done as int)),
        decreases texts.len() - done,
    {
        let text = texts[done].clone();
        let length = length_of(text.as_str());
        let mut at: usize = sorted.len();
        while at > 0 && length_of(sorted[at - 1].as_str()) > length
            invariant
                at <= sorted.len(),
                length == byte_length(text@),
                forall|k: int|
                    at <= k < sorted.len() ==> byte_length(#[trigger] sorted.deep_view()[k])
                        > length,
            decreases at,
        {
            at = at - 1;
        }
        let ghost before = sorted.deep_view();
        let ghost seen = texts.deep_view().take(done as int);
        sorted.insert(at, text);
        proof {
            assert(sorted.deep_view() =~= before.insert(at as int, text@));
            assert(texts.deep_view().take(done + 1) =~= seen.push(text@));
            assert forall|k: int| 0 <= k < at implies byte_length(#[trigger] before[k])
                <= byte_length(text@) by {
                assert(byte_length(before[k]) <= byte_length(before[at - 1]));
            }
            lemma_insert_keeps_order(before, at as int, text@);
            assert forall|n: nat| #[trigger]
                of_length(sorted.deep_view(), n) == of_length(seen.push(text@), n) by {
                lemma_of_length_insert(before, at as int, text@, n);
                lemma_of_length_push(seen, text@, n);
                assert(of_length(before, n) == of_length(seen, n));
            }
        }
        done = done + 1;
    }
    proof {
        assert(texts.deep_view().take(done as int) =~= texts.deep_view());
    }
    sorted
}

} // verus!
