//! The two selection policies.
//!
//! Each policy reduces a result batch and a requested count to an ordered
//! list of addresses to activate. First-online scans the batch in its given
//! order and keeps the addresses of the first reachable entries; best-latency
//! keeps the addresses of the fastest reachable entries, ascending by
//! measured latency, ties resolved by batch position. Both fail open: when
//! fewer entries qualify than were requested, all qualifying ones are
//! returned, and an empty selection is an ordinary result, never an error.

use vstd::prelude::*;

use crate::dns_checker::DnsCheckResult;

verus! {

/// The addresses of the reachable entries of a batch, in batch order.
pub open spec fn online_addresses(batch: Seq<DnsCheckResult>) -> Seq<Seq<char>>
    decreases batch.len(),
{
    if batch.len() == 0 {
        Seq::empty()
    } else {
        let rest = online_addresses(batch.drop_last());
        if batch.last().is_online {
            rest.push(batch.last().address@)
        } else {
            rest
        }
    }
}

/// What the first-online policy returns: the first `min(count, reachable)`
/// reachable addresses, in batch order.
pub open spec fn first_online_spec(batch: Seq<DnsCheckResult>, count: int) -> Seq<Seq<char>> {
    let online = online_addresses(batch);
    online.take(vstd::math::min(count, online.len() as int))
}

/// Scanning a prefix of the batch yields a prefix of the reachable
/// addresses.
proof fn lemma_online_addresses_prefix(batch: Seq<DnsCheckResult>, i: int)
    requires
        0 <= i <= batch.len(),
    ensures
        online_addresses(batch.take(i)).is_prefix_of(online_addresses(batch)),
    decreases batch.len() - i,
{
    if i == batch.len() {
        assert(batch.take(i) =~= batch);
    } else {
        lemma_online_addresses_prefix(batch, i + 1);
        assert(batch.take(i + 1).drop_last() =~= batch.take(i));
        assert(batch.take(i + 1).last() == batch[i]);
        let shorter = online_addresses(batch.take(i));
        let longer = online_addresses(batch.take(i + 1));
        assert(shorter.is_prefix_of(longer));
        assert(shorter.is_prefix_of(online_addresses(batch)));
    }
}

/// Select the addresses of the first `count` reachable entries, scanning the
/// batch in its given order; where fewer are reachable, all of them.
pub fn select_first_online_dns(results: &Vec<DnsCheckResult>, count: usize) -> (r: Vec<String>)
    ensures
        r.deep_view() == first_online_spec(results@, count as int),
        r@.len() == vstd::math::min(count as int, online_addresses(results@).len() as int),
{
    let n = results.len();
    let mut selected: Vec<String> = Vec::new();
    let mut i: usize = 0;
    while i < n && selected.len() < count
        invariant
            i <= n,
            n == results@.len(),
            selected@.len() <= count,
            selected.deep_view() == online_addresses(results@.take(i as int)),
            online_addresses(results@.take(i as int)).len() <= count,
        decreases n - i,
    {
        proof {
            assert(results@.take(i + 1).drop_last() =~= results@.take(i as int));
            assert(results@.take(i + 1).last() == results@[i as int]);
        }
        if results[i].is_online {
            selected.push(results[i].address.clone());
            proof {
                assert(selected.deep_view() =~= online_addresses(
                    results@.take(i as int),
                ).push(results@[i as int].address@));
            }
        }
        i += 1;
    }
    proof {
        let full = online_addresses(results@);
        let part = online_addresses(results@.take(i as int));
        lemma_online_addresses_prefix(results@, i as int);
        if i == n {
            assert(results@.take(i as int) =~= results@);
            assert(selected.deep_view() =~= full.take(
                vstd::math::min(count as int, full.len() as int),
            ));
        } else {
            assert(selected@.len() == count);
            assert(part.take(count as int) =~= full.take(count as int));
            assert(selected.deep_view() =~= full.take(
                vstd::math::min(count as int, full.len() as int),
            ));
        }
    }
    selected
}

/// First-online law: the selection is a prefix, in batch order, of the
/// reachable entries' addresses, of length `min(count, reachable)`.
pub proof fn lemma_first_online_is_prefix(batch: Seq<DnsCheckResult>, count: int)
    requires
        0 <= count,
    ensures
        first_online_spec(batch, count).is_prefix_of(online_addresses(batch)),
        first_online_spec(batch, count).len() == vstd::math::min(
            count,
            online_addresses(batch).len() as int,
        ),
{
    let online = online_addresses(batch);
    let taken = first_online_spec(batch, count);
    assert(taken =~= online.subrange(0, taken.len() as int));
}

/// A sorting key: two ranking components and the batch position of the entry
/// it was taken from. Positions are unique within one batch, so the
/// lexicographic order on keys is total and strict, which makes every sort
/// below stable and its result unique.
pub type SortKey = (u64, u64, usize);

/// Lexicographic order on sorting keys.
pub open spec fn key_le(a: SortKey, b: SortKey) -> bool {
    ||| a.0 < b.0
    ||| (a.0 == b.0 && a.1 < b.1)
    ||| (a.0 == b.0 && a.1 == b.1 && a.2 <= b.2)
}

/// The keys stand in ascending lexicographic order.
pub open spec fn keys_sorted(s: Seq<SortKey>) -> bool {
    forall|i: int, j: int| 0 <= i < j < s.len() ==> key_le(#[trigger] s[i], #[trigger] s[j])
}

/// One key placed at its position in an ascending sequence: before the first
/// element it is less than or equal to.
pub open spec fn insert_key(x: SortKey, s: Seq<SortKey>) -> Seq<SortKey>
    decreases s.len(),
{
    if s.len() == 0 {
        seq![x]
    } else if key_le(x, s[0]) {
        seq![x] + s
    } else {
        seq![s[0]] + insert_key(x, s.drop_first())
    }
}

/// The keys in ascending lexicographic order, placed one after another; with
/// positions unique this is the one ascending arrangement of them.
pub open spec fn sort_keys(s: Seq<SortKey>) -> Seq<SortKey>
    decreases s.len(),
{
    if s.len() == 0 {
        Seq::empty()
    } else {
        insert_key(s.last(), sort_keys(s.drop_last()))
    }
}

/// Placing a key into an ascending sequence keeps it ascending, keeps every
/// key, and adds the new one.
proof fn lemma_insert_key_sorted(x: SortKey, s: Seq<SortKey>)
    requires
        keys_sorted(s),
    ensures
        keys_sorted(insert_key(x, s)),
        insert_key(x, s).to_multiset() == s.to_multiset().insert(x),
        insert_key(x, s).len() == s.len() + 1,
    decreases s.len(),
{
    broadcast use vstd::seq_lib::group_to_multiset_ensures;

    let out = insert_key(x, s);
    if s.len() == 0 {
        assert(out =~= seq![x]);
        assert(out.to_multiset() =~= s.to_multiset().insert(x)) by {
            assert(out == s.push(x));
        }
    } else if key_le(x, s[0]) {
        assert(out =~= seq![x] + s);
        assert(forall|j: int| 0 < j < out.len() ==> key_le(out[0], #[trigger] out[j]));
        assert(out.to_multiset() =~= s.to_multiset().insert(x)) by {
            assert(out =~= s.insert(0, x));
            s.to_multiset_ensures();
            assert(s.insert(0, x).to_multiset() == s.to_multiset().insert(x));
        }
    } else {
        let rest = s.drop_first();
        assert(keys_sorted(rest)) by {
            assert(forall|i: int, j: int|
                0 <= i < j < rest.len() ==> key_le(#[trigger] rest[i], #[trigger] rest[j])
                    == key_le(s[i + 1], s[j + 1]));
        }
        lemma_insert_key_sorted(x, rest);
        let inner = insert_key(x, rest);
        assert(out =~= seq![s[0]] + inner);
        // s[0] stays below everything behind it: each key of `inner` is
        // either x (which s[0] precedes, the order being total) or a key of
        // rest (which s[0] precedes since s is ascending).
        assert(forall|j: int| 0 <= j < inner.len() ==> key_le(s[0], #[trigger] inner[j])) by {
            assert(forall|j: int| 0 <= j < inner.len() ==> inner.to_multiset().contains(
                #[trigger] inner[j],
            ));
            assert(forall|k: SortKey| rest.to_multiset().contains(k) ==> exists|m: int|
                0 <= m < rest.len() && rest[m] == k);
            assert(forall|m: int| 0 <= m < rest.len() ==> key_le(s[0], #[trigger] rest[m])) by {
                assert(forall|m: int| 0 <= m < rest.len() ==> rest[m] == s[m + 1]);
            }
            assert(!key_le(x, s[0]));
            assert(key_le(s[0], x));
        }
        assert(keys_sorted(out)) by {
            assert(forall|i: int, j: int|
                0 < i < j < out.len() ==> key_le(#[trigger] out[i], #[trigger] out[j])
                    == key_le(inner[i - 1], inner[j - 1]));
        }
        assert(out.to_multiset() =~= s.to_multiset().insert(x)) by {
            assert(out == inner.insert(0, s[0]));
            inner.to_multiset_ensures();
            assert(out.to_multiset() == inner.to_multiset().insert(s[0]));
            assert(s == rest.insert(0, s[0])) by {
                assert(s =~= rest.insert(0, s[0]));
            }
            rest.to_multiset_ensures();
            assert(s.to_multiset() == rest.to_multiset().insert(s[0]));
            assert(inner.to_multiset() == rest.to_multiset().insert(x));
            assert(rest.to_multiset().insert(x).insert(s[0]) =~= rest.to_multiset().insert(
                s[0],
            ).insert(x)) by {
                broadcast use vstd::multiset::group_multiset_axioms;

            }
        }
    }
}

/// Sorting arranges exactly the given keys, ascending.
pub proof fn lemma_sort_keys_ensures(s: Seq<SortKey>)
    ensures
        keys_sorted(sort_keys(s)),
        sort_keys(s).to_multiset() == s.to_multiset(),
        sort_keys(s).len() == s.len(),
    decreases s.len(),
{
    broadcast use vstd::seq_lib::group_to_multiset_ensures;

    if s.len() > 0 {
        lemma_sort_keys_ensures(s.drop_last());
        lemma_insert_key_sorted(s.last(), sort_keys(s.drop_last()));
        assert(s =~= s.drop_last().push(s.last()));
        s.drop_last().to_multiset_ensures();
        assert(s.drop_last().push(s.last()).to_multiset() == s.drop_last().to_multiset().insert(
            s.last(),
        ));
    }
}

/// Placing a key at the position found by a linear scan — just before the
/// first element it is less than or equal to — is the recursive placement.
proof fn lemma_insert_key_at(x: SortKey, s: Seq<SortKey>, p: int)
    requires
        keys_sorted(s),
        0 <= p <= s.len(),
        forall|m: int| 0 <= m < p ==> !key_le(x, #[trigger] s[m]),
        p < s.len() ==> key_le(x, s[p]),
    ensures
        insert_key(x, s) == s.insert(p, x),
    decreases s.len(),
{
    if s.len() == 0 {
        assert(insert_key(x, s) =~= s.insert(0, x));
    } else if key_le(x, s[0]) {
        assert(p == 0);
        assert(insert_key(x, s) =~= s.insert(0, x));
    } else {
        assert(p > 0);
        let rest = s.drop_first();
        assert(keys_sorted(rest)) by {
            assert(forall|i: int, j: int|
                0 <= i < j < rest.len() ==> key_le(#[trigger] rest[i], #[trigger] rest[j])
                    == key_le(s[i + 1], s[j + 1]));
        }
        assert(forall|m: int| 0 <= m < p - 1 ==> !key_le(x, #[trigger] rest[m])) by {
            assert(forall|m: int| 0 <= m < rest.len() ==> rest[m] == s[m + 1]);
        }
        lemma_insert_key_at(x, rest, p - 1);
        assert(insert_key(x, s) =~= s.insert(p, x)) by {
            assert(insert_key(x, s) == seq![s[0]] + rest.insert(p - 1, x));
        }
    }
}

/// Whether `a` sorts at or before `b`.
fn key_le_exec(a: &SortKey, b: &SortKey) -> (r: bool)
    ensures
        r == key_le(*a, *b),
{
    a.0 < b.0 || (a.0 == b.0 && (a.1 < b.1 || (a.1 == b.1 && a.2 <= b.2)))
}

/// Arrange the keys in ascending lexicographic order by insertion: each key
/// in turn is placed just before the first already-placed key it does not
/// exceed.
fn sort_by_keys(keys: &Vec<SortKey>) -> (r: Vec<SortKey>)
    ensures
        r@ == sort_keys(keys@),
        keys_sorted(r@),
        r@.len() == keys@.len(),
{
    let n = keys.len();
    let mut out: Vec<SortKey> = Vec::new();
    let mut i: usize = 0;
    while i < n
        invariant
            i <= n,
            n == keys@.len(),
            out@ == sort_keys(keys@.take(i as int)),
            keys_sorted(out@),
            out@.len() == i,
        decreases n - i,
    {
        let x = keys[i];
        let m = out.len();
        let mut p: usize = 0;
        while p < m && !key_le_exec(&x, &out[p])
            invariant
                p <= m,
                m == out@.len(),
                forall|q: int| 0 <= q < p ==> !key_le(x, #[trigger] out@[q]),
            decreases m - p,
        {
            p += 1;
        }
        proof {
            lemma_insert_key_at(x, out@, p as int);
            lemma_insert_key_sorted(x, out@);
            assert(keys@.take(i + 1).drop_last() =~= keys@.take(i as int));
            assert(keys@.take(i + 1).last() == keys@[i as int]);
        }
        out.insert(p, x);
        i += 1;
    }
    proof {
        assert(keys@.take(n as int) =~= keys@);
    }
    out
}

/// An entry the best-latency policy considers: reachable, with a measured
/// latency.
pub open spec fn qualifies(r: DnsCheckResult) -> bool {
    r.is_online && r.latency_us is Some
}

/// One sorting key per qualifying entry, in batch order: the measured
/// latency ranks first, the batch position breaks ties.
pub open spec fn latency_keys(batch: Seq<DnsCheckResult>) -> Seq<SortKey>
    decreases batch.len(),
{
    if batch.len() == 0 {
        Seq::empty()
    } else {
        let rest = latency_keys(batch.drop_last());
        if qualifies(batch.last()) {
            rest.push((batch.last().latency_us->0, 0u64, (batch.len() - 1) as usize))
        } else {
            rest
        }
    }
}

/// `k` names a qualifying entry of the batch and carries its latency.
pub open spec fn latency_key_of(batch: Seq<DnsCheckResult>, k: SortKey) -> bool {
    &&& k.2 < batch.len()
    &&& qualifies(batch[k.2 as int])
    &&& k.0 == batch[k.2 as int].latency_us->0
    &&& k.1 == 0
}

/// Every latency key names a qualifying entry of its batch. The batch is
/// bounded by what a vector can hold, so the position component is exact.
proof fn lemma_latency_keys_valid(batch: Seq<DnsCheckResult>)
    requires
        batch.len() <= usize::MAX,
    ensures
        forall|t: int|
            0 <= t < latency_keys(batch).len() ==> latency_key_of(
                batch,
                #[trigger] latency_keys(batch)[t],
            ),
        latency_keys(batch).len() <= batch.len(),
    decreases batch.len(),
{
    if batch.len() > 0 {
        let rest = latency_keys(batch.drop_last());
        lemma_latency_keys_valid(batch.drop_last());
        assert forall|t: int| 0 <= t < latency_keys(batch).len() implies latency_key_of(
            batch,
            #[trigger] latency_keys(batch)[t],
        ) by {
            if t < rest.len() {
                assert(latency_keys(batch)[t] == rest[t]);
                assert(latency_key_of(batch.drop_last(), rest[t]));
                assert(batch.drop_last()[rest[t].2 as int] == batch[rest[t].2 as int]);
            } else {
                assert(qualifies(batch.last()));
                assert(latency_keys(batch)[t] == (
                    batch.last().latency_us->0,
                    0u64,
                    (batch.len() - 1) as usize,
                ));
                assert(batch.last() == batch[batch.len() - 1]);
            }
        }
    }
}

/// The addresses of the entries the given keys name, in key order.
pub open spec fn keys_to_addresses(batch: Seq<DnsCheckResult>, ks: Seq<SortKey>) -> Seq<
    Seq<char>,
> {
    ks.map_values(|k: SortKey| batch[k.2 as int].address@)
}

/// What the best-latency policy returns: the addresses of the
/// `min(count, qualifying)` qualifying entries with the smallest latencies,
/// ascending by latency, ties in batch order.
pub open spec fn best_latency_spec(batch: Seq<DnsCheckResult>, count: int) -> Seq<Seq<char>> {
    let sorted = sort_keys(latency_keys(batch));
    keys_to_addresses(batch, sorted.take(vstd::math::min(count, sorted.len() as int)))
}

/// Every key of the sorted arrangement names a qualifying entry of the
/// batch; in particular its position component indexes into the batch.
proof fn lemma_sorted_latency_keys_valid(batch: Seq<DnsCheckResult>)
    requires
        batch.len() <= usize::MAX,
    ensures
        forall|t: int|
            0 <= t < sort_keys(latency_keys(batch)).len() ==> latency_key_of(
                batch,
                #[trigger] sort_keys(latency_keys(batch))[t],
            ),
{
    broadcast use vstd::seq_lib::group_to_multiset_ensures;

    let keys = latency_keys(batch);
    let sorted = sort_keys(keys);
    lemma_latency_keys_valid(batch);
    lemma_sort_keys_ensures(keys);
    assert forall|t: int| 0 <= t < sorted.len() implies latency_key_of(
        batch,
        #[trigger] sorted[t],
    ) by {
        assert(sorted.to_multiset().contains(sorted[t]));
        assert(keys.to_multiset().contains(sorted[t]));
        assert(keys.contains(sorted[t]));
        let w = choose|w: int| 0 <= w < keys.len() && keys[w] == sorted[t];
        assert(latency_key_of(batch, keys[w]));
    }
}

/// Select the addresses of the `count` fastest reachable entries with a
/// measured latency, ascending by latency, ties kept in batch order; where
/// fewer qualify, all of them.
pub fn select_best_dns(results: &Vec<DnsCheckResult>, count: usize) -> (r: Vec<String>)
    ensures
        r.deep_view() == best_latency_spec(results@, count as int),
        r@.len() == vstd::math::min(count as int, latency_keys(results@).len() as int),
{
    let n = results.len();
    let mut keys: Vec<SortKey> = Vec::new();
    let mut i: usize = 0;
    while i < n
        invariant
            i <= n,
            n == results@.len(),
            keys@ == latency_keys(results@.take(i as int)),
            keys@.len() <= i,
        decreases n - i,
    {
        proof {
            assert(results@.take(i + 1).drop_last() =~= results@.take(i as int));
            assert(results@.take(i + 1).last() == results@[i as int]);
        }
        if results[i].is_online {
            match results[i].latency_us {
                Some(latency) => {
                    keys.push((latency, 0u64, i));
                },
                None => {},
            }
        }
        i += 1;
    }
    proof {
        assert(results@.take(n as int) =~= results@);
    }
    let sorted = sort_by_keys(&keys);
    proof {
        lemma_sorted_latency_keys_valid(results@);
    }
    let m = if count < sorted.len() {
        count
    } else {
        sorted.len()
    };
    let mut selected: Vec<String> = Vec::new();
    let mut j: usize = 0;
    while j < m
        invariant
            j <= m,
            m == vstd::math::min(count as int, sorted@.len() as int),
            sorted@ == sort_keys(latency_keys(results@)),
            forall|t: int|
                0 <= t < sorted@.len() ==> latency_key_of(results@, #[trigger] sorted@[t]),
            selected@.len() == j,
            forall|t: int|
                0 <= t < j ==> (#[trigger] selected@[t])@ == results@[sorted@[t].2 as int].address@,
        decreases m - j,
    {
        let k = sorted[j];
        selected.push(results[k.2].address.clone());
        j += 1;
    }
    proof {
        let taken = sorted@.take(m as int);
        assert forall|t: int| 0 <= t < m implies selected.deep_view()[t] == keys_to_addresses(
            results@,
            taken,
        )[t] by {
            assert(selected.deep_view()[t] == selected@[t]@);
            assert(keys_to_addresses(results@, taken)[t] == results@[taken[t].2 as int].address@);
        }
        assert(selected.deep_view() =~= keys_to_addresses(results@, taken));
        assert(selected.deep_view() =~= best_latency_spec(results@, count as int));
    }
    selected
}

/// Best-latency law: the sorted arrangement the policy reads its prefix from
/// holds exactly the qualifying entries' keys, in ascending latency order
/// with ties in batch position order; every selected key is at or below
/// every unselected one; and every key names a qualifying entry. Equal
/// latencies are ordered by position, so ties never make the arrangement
/// ambiguous.
pub proof fn lemma_best_latency_takes_k_smallest(batch: Seq<DnsCheckResult>, count: int)
    requires
        batch.len() <= usize::MAX,
    ensures
        keys_sorted(sort_keys(latency_keys(batch))),
        sort_keys(latency_keys(batch)).to_multiset() == latency_keys(batch).to_multiset(),
        forall|i: int, j: int|
            0 <= i < vstd::math::min(count, sort_keys(latency_keys(batch)).len() as int) <= j
                < sort_keys(latency_keys(batch)).len() ==> key_le(
                #[trigger] sort_keys(latency_keys(batch))[i],
                #[trigger] sort_keys(latency_keys(batch))[j],
            ),
        forall|t: int|
            0 <= t < sort_keys(latency_keys(batch)).len() ==> latency_key_of(
                batch,
                #[trigger] sort_keys(latency_keys(batch))[t],
            ),
{
    lemma_sort_keys_ensures(latency_keys(batch));
    lemma_sorted_latency_keys_valid(batch);
}

/// No reachable entry, no selection: on a batch with nothing online — an
/// empty batch included — both policies return the empty selection.
pub proof fn lemma_no_online_empty_selection(batch: Seq<DnsCheckResult>, count: int)
    requires
        0 <= count,
        forall|i: int| 0 <= i < batch.len() ==> !(#[trigger] batch[i]).is_online,
    ensures
        first_online_spec(batch, count) == Seq::<Seq<char>>::empty(),
        best_latency_spec(batch, count) == Seq::<Seq<char>>::empty(),
    decreases batch.len(),
{
    if batch.len() == 0 {
        assert(first_online_spec(batch, count) =~= Seq::<Seq<char>>::empty());
        assert(best_latency_spec(batch, count) =~= Seq::<Seq<char>>::empty());
    } else {
        assert(forall|i: int|
            0 <= i < batch.drop_last().len() ==> !(#[trigger] batch.drop_last()[i]).is_online);
        lemma_no_online_empty_selection(batch.drop_last(), count);
        assert(online_addresses(batch) == online_addresses(batch.drop_last()));
        assert(latency_keys(batch) == latency_keys(batch.drop_last()));
        assert(first_online_spec(batch, count) =~= Seq::<Seq<char>>::empty());
        assert(best_latency_spec(batch, count) =~= Seq::<Seq<char>>::empty());
    }
}

/// One sorting key per batch entry, for presentation: entries with a
/// measured latency come first, ascending, then the ones without, each group
/// in batch order.
pub open spec fn display_keys(batch: Seq<DnsCheckResult>) -> Seq<SortKey>
    decreases batch.len(),
{
    if batch.len() == 0 {
        Seq::empty()
    } else {
        let rest = display_keys(batch.drop_last());
        let last = batch.last();
        if last.latency_us is Some {
            rest.push((0u64, last.latency_us->0, (batch.len() - 1) as usize))
        } else {
            rest.push((1u64, 0u64, (batch.len() - 1) as usize))
        }
    }
}

/// The batch positions the given keys name, in key order.
pub open spec fn keys_positions(ks: Seq<SortKey>) -> Seq<usize> {
    ks.map_values(|k: SortKey| k.2)
}

/// The order a batch is presented in: every batch position exactly once,
/// measured entries first, ascending by latency, unmeasured ones after, each
/// group in batch order.
pub open spec fn display_order_spec(batch: Seq<DnsCheckResult>) -> Seq<usize> {
    keys_positions(sort_keys(display_keys(batch)))
}

/// `k` names an entry of the batch and ranks it for presentation.
pub open spec fn display_key_of(batch: Seq<DnsCheckResult>, k: SortKey) -> bool {
    &&& k.2 < batch.len()
    &&& if batch[k.2 as int].latency_us is Some {
        k.0 == 0 && k.1 == batch[k.2 as int].latency_us->0
    } else {
        k.0 == 1 && k.1 == 0
    }
}

/// There is one display key per batch entry, and each names its entry.
proof fn lemma_display_keys_valid(batch: Seq<DnsCheckResult>)
    requires
        batch.len() <= usize::MAX,
    ensures
        display_keys(batch).len() == batch.len(),
        forall|t: int|
            0 <= t < display_keys(batch).len() ==> display_key_of(
                batch,
                #[trigger] display_keys(batch)[t],
            ),
    decreases batch.len(),
{
    if batch.len() > 0 {
        let rest = display_keys(batch.drop_last());
        lemma_display_keys_valid(batch.drop_last());
        assert forall|t: int| 0 <= t < display_keys(batch).len() implies display_key_of(
            batch,
            #[trigger] display_keys(batch)[t],
        ) by {
            if t < rest.len() {
                assert(display_keys(batch)[t] == rest[t]);
                assert(display_key_of(batch.drop_last(), rest[t]));
                assert(batch.drop_last()[rest[t].2 as int] == batch[rest[t].2 as int]);
            } else {
                assert(batch.last() == batch[batch.len() - 1]);
            }
        }
    }
}

/// The order to present a batch in: entries with a measured latency first,
/// ascending, then the rest, each group in batch order. Every returned value
/// is a position into the batch, and each position appears exactly once.
pub fn display_order(results: &Vec<DnsCheckResult>) -> (r: Vec<usize>)
    ensures
        r@ == display_order_spec(results@),
        r@.len() == results@.len(),
        forall|t: int| 0 <= t < r@.len() ==> (#[trigger] r@[t]) < results@.len(),
{
    let n = results.len();
    let mut keys: Vec<SortKey> = Vec::new();
    let mut i: usize = 0;
    while i < n
        invariant
            i <= n,
            n == results@.len(),
            keys@ == display_keys(results@.take(i as int)),
            keys@.len() == i,
        decreases n - i,
    {
        proof {
            assert(results@.take(i + 1).drop_last() =~= results@.take(i as int));
            assert(results@.take(i + 1).last() == results@[i as int]);
        }
        match results[i].latency_us {
            Some(latency) => keys.push((0u64, latency, i)),
            None => keys.push((1u64, 0u64, i)),
        }
        i += 1;
    }
    proof {
        assert(results@.take(n as int) =~= results@);
        lemma_display_keys_valid(results@);
        lemma_sort_keys_ensures(display_keys(results@));
    }
    let sorted = sort_by_keys(&keys);
    proof {
        broadcast use vstd::seq_lib::group_to_multiset_ensures;

        assert forall|t: int| 0 <= t < sorted@.len() implies display_key_of(
            results@,
            #[trigger] sorted@[t],
        ) by {
            assert(sorted@.to_multiset().contains(sorted@[t]));
            assert(keys@.to_multiset().contains(sorted@[t]));
            assert(keys@.contains(sorted@[t]));
            let w = choose|w: int| 0 <= w < keys@.len() && keys@[w] == sorted@[t];
            assert(display_key_of(results@, keys@[w]));
        }
    }
    let m = sorted.len();
    let mut order: Vec<usize> = Vec::new();
    let mut j: usize = 0;
    while j < m
        invariant
            j <= m,
            m == sorted@.len(),
            m == results@.len(),
            sorted@ == sort_keys(display_keys(results@)),
            forall|t: int|
                0 <= t < sorted@.len() ==> display_key_of(results@, #[trigger] sorted@[t]),
            order@.len() == j,
            forall|t: int| 0 <= t < j ==> (#[trigger] order@[t]) == sorted@[t].2,
        decreases m - j,
    {
        let k = sorted[j];
        order.push(k.2);
        j += 1;
    }
    proof {
        assert(order@ =~= display_order_spec(results@));
    }
    order
}

/// Presentation law: the display order lists each batch position exactly
/// once.
pub proof fn lemma_display_order_is_permutation(batch: Seq<DnsCheckResult>)
    requires
        batch.len() <= usize::MAX,
    ensures
        display_order_spec(batch).len() == batch.len(),
        forall|p: usize| p < batch.len() ==> #[trigger] display_order_spec(batch).contains(p),
{
    broadcast use vstd::seq_lib::group_to_multiset_ensures;

    let keys = display_keys(batch);
    let sorted = sort_keys(keys);
    lemma_display_keys_valid(batch);
    lemma_sort_keys_ensures(keys);
    assert forall|p: usize| p < batch.len() implies #[trigger] display_order_spec(
        batch,
    ).contains(p) by {
        lemma_display_keys_positions_distinct(batch);
        assert(keys[p as int].2 == p);
        assert(keys.to_multiset().contains(keys[p as int]));
        assert(sorted.to_multiset().contains(keys[p as int]));
        assert(sorted.contains(keys[p as int]));
        let t = choose|t: int| 0 <= t < sorted.len() && sorted[t] == keys[p as int];
        assert(display_order_spec(batch)[t] == p);
    }
}

/// Display key `t` carries batch position `t`.
proof fn lemma_display_keys_positions_distinct(batch: Seq<DnsCheckResult>)
    requires
        batch.len() <= usize::MAX,
    ensures
        display_keys(batch).len() == batch.len(),
        forall|t: int|
            0 <= t < batch.len() ==> (#[trigger] display_keys(batch)[t]).2 == t as usize,
    decreases batch.len(),
{
    if batch.len() > 0 {
        lemma_display_keys_positions_distinct(batch.drop_last());
        lemma_display_keys_valid(batch.drop_last());
        assert forall|t: int| 0 <= t < batch.len() implies (#[trigger] display_keys(
            batch,
        )[t]).2 == t as usize by {
            if t < batch.len() - 1 {
                assert(display_keys(batch)[t] == display_keys(batch.drop_last())[t]);
            }
        }
    }
}

} // verus!
