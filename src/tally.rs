//! Counting occurrences of text keys, kept in ascending key order: the
//! grouping behind the dashboard's breakdowns.
use vstd::prelude::*;

use crate::text::{is_text_less, lemma_text_less_transitive, text_less};

verus! {

/// The count that the groups `g` hold for key `k`.
pub open spec fn tally_of(g: Seq<(String, i64)>, k: Seq<char>) -> int
    decreases g.len(),
{
    if g.len() == 0 {
        0
    } else {
        tally_of(g.drop_last(), k) + if g.last().0@ == k {
            g.last().1 as int
        } else {
            0
        }
    }
}

/// The keys of `g` ascend strictly, so each occurs once.
pub open spec fn keys_ascending(g: Seq<(String, i64)>) -> bool {
    forall|i: int, j: int| 0 <= i < j < g.len() ==> text_less((#[trigger] g[i]).0@, (#[trigger] g[j]).0@)
}

/// Every count of `g` is positive and at most `bound`.
pub open spec fn counts_within(g: Seq<(String, i64)>, bound: int) -> bool {
    forall|i: int| 0 <= i < g.len() ==> 0 < (#[trigger] g[i]).1 <= bound
}

pub proof fn lemma_tally_concat(a: Seq<(String, i64)>, b: Seq<(String, i64)>, k: Seq<char>)
    ensures
        tally_of(a + b, k) == tally_of(a, k) + tally_of(b, k),
    decreases b.len(),
{
    if b.len() == 0 {
        assert(a + b =~= a);
    } else {
        lemma_tally_concat(a, b.drop_last(), k);
        assert((a + b).drop_last() =~= a + b.drop_last());
    }
}

proof fn lemma_tally_single(x: (String, i64), k: Seq<char>)
    ensures
        tally_of(seq![x], k) == if x.0@ == k {
            x.1 as int
        } else {
            0
        },
{
    assert(seq![x].drop_last() =~= Seq::<(String, i64)>::empty());
    assert(seq![x].last() == x);
    assert(tally_of(Seq::<(String, i64)>::empty(), k) == 0);
}

proof fn lemma_text_trichotomy(a: Seq<char>, b: Seq<char>)
    ensures
        text_less(a, b) || text_less(b, a) || a == b,
    decreases a.len(),
{
    if a.len() > 0 && b.len() > 0 && a[0] == b[0] {
        lemma_text_trichotomy(a.drop_first(), b.drop_first());
        if a.drop_first() == b.drop_first() {
            assert(a =~= seq![a[0]] + a.drop_first());
            assert(b =~= seq![b[0]] + b.drop_first());
        }
    } else if a.len() == 0 && b.len() == 0 {
        assert(a =~= b);
    } else if a.len() > 0 && b.len() > 0 {
        assert(a[0] < b[0] || b[0] < a[0]);
    }
}

/// Counts one more occurrence of `key` in the groups `g`.
pub fn add_key(g: &mut Vec<(String, i64)>, key: String, Ghost(bound): Ghost<int>)
    requires
        keys_ascending(old(g)@),
        counts_within(old(g)@, bound),
        0 <= bound < i64::MAX,
    ensures
        keys_ascending(final(g)@),
        counts_within(final(g)@, bound + 1),
        forall|k: Seq<char>| #[trigger] tally_of(final(g)@, k) == tally_of(old(g)@, k) + if k == key@ {
            1int
        } else {
            0int
        },
{
    let mut pos: usize = 0;
    while pos < g.len() && is_text_less(g[pos].0.as_str(), key.as_str())
        invariant
            pos <= g@.len(),
            forall|i: int| 0 <= i < pos ==> text_less((#[trigger] g@[i]).0@, key@),
        decreases g@.len() - pos,
    {
        pos = pos + 1;
    }
    let ghost before = g@;
    let ghost kv = key@;
    proof {
        assert(before =~= before.subrange(0, pos as int) + before.subrange(pos as int, before.len() as int));
    }
    if pos < g.len() && g[pos].0 == key {
        let c = g[pos].1;
        let ghost y = (key, (c + 1) as i64);
        let k = key;
        g.set(pos, (k, c + 1));
        proof {
            assert(g@ =~= before.subrange(0, pos as int) + seq![y] + before.subrange(pos + 1, before.len() as int));
            assert(before =~= before.subrange(0, pos as int) + seq![before[pos as int]] + before.subrange(pos + 1, before.len() as int));
            assert forall|k: Seq<char>| #[trigger] tally_of(g@, k) == tally_of(before, k) + if k == kv {
                1int
            } else {
                0int
            } by {
                lemma_tally_concat(before.subrange(0, pos as int) + seq![y], before.subrange(pos + 1, before.len() as int), k);
                lemma_tally_concat(before.subrange(0, pos as int), seq![y], k);
                lemma_tally_concat(before.subrange(0, pos as int) + seq![before[pos as int]], before.subrange(pos + 1, before.len() as int), k);
                lemma_tally_concat(before.subrange(0, pos as int), seq![before[pos as int]], k);
                lemma_tally_single(y, k);
                lemma_tally_single(before[pos as int], k);
            }
            assert forall|i: int, j: int| 0 <= i < j < g@.len() implies text_less((#[trigger] g@[i]).0@, (#[trigger] g@[j]).0@) by {
                assert(g@[i].0@ == before[i].0@);
                assert(g@[j].0@ == before[j].0@);
            }
            assert forall|i: int| 0 <= i < g@.len() implies 0 < (#[trigger] g@[i]).1 <= bound + 1 by {
                if i != pos {
                    assert(g@[i] == before[i]);
                }
            }
        }
    } else {
        let ghost x = (key, 1i64);
        let k = key;
        g.insert(pos, (k, 1));
        proof {
            assert(g@ =~= before.subrange(0, pos as int) + seq![x] + before.subrange(pos as int, before.len() as int));
            assert forall|k: Seq<char>| #[trigger] tally_of(g@, k) == tally_of(before, k) + if k == kv {
                1int
            } else {
                0int
            } by {
                lemma_tally_concat(before.subrange(0, pos as int) + seq![x], before.subrange(pos as int, before.len() as int), k);
                lemma_tally_concat(before.subrange(0, pos as int), seq![x], k);
                lemma_tally_concat(before.subrange(0, pos as int), before.subrange(pos as int, before.len() as int), k);
                lemma_tally_single(x, k);
            }
            if pos < before.len() {
                lemma_text_trichotomy(before[pos as int].0@, kv);
            }
            assert forall|i: int, j: int| 0 <= i < j < g@.len() implies text_less((#[trigger] g@[i]).0@, (#[trigger] g@[j]).0@) by {
                if j < pos {
                    assert(g@[i] == before[i] && g@[j] == before[j]);
                } else if j == pos {
                    assert(g@[i] == before[i]);
                } else if i == pos {
                    assert(g@[j] == before[j - 1]);
                    if j - 1 > pos {
                        lemma_text_less_transitive(kv, before[pos as int].0@, before[j - 1].0@);
                    }
                } else if i < pos {
                    assert(g@[i] == before[i] && g@[j] == before[j - 1]);
                } else {
                    assert(g@[i] == before[i - 1] && g@[j] == before[j - 1]);
                }
            }
            assert forall|i: int| 0 <= i < g@.len() implies 0 < (#[trigger] g@[i]).1 <= bound + 1 by {
                if i < pos {
                    assert(g@[i] == before[i]);
                } else if i > pos {
                    assert(g@[i] == before[i - 1]);
                }
            }
        }
    }
}

} // verus!
