//! The data loading and batching engine.
//!
//! A [`DataLoader`] consumes a [`Database`] once at construction,
//! materializes an owned, optionally shuffled partition of its entries
//! into fixed-size batches, and serves those batches cyclically. Its
//! contract pins the whole partition: the number of batches is
//! `ceil(size / batch_size)`, every batch but the last holds exactly
//! `batch_size` entries, the multiset of entries across all batches
//! equals the database's entries, and without shuffling the entries
//! appear in strict ascending index order.

use vstd::prelude::*;

use crate::database::{db_models, model_of, models_of, Database, Entry, EntryModel, OwnedEntry};
use crate::random::rand_below;
use crate::ConfigError;

verus! {

/// The entry sequences of a queue of batches.
pub open spec fn batch_views(q: Seq<Vec<OwnedEntry>>) -> Seq<Seq<OwnedEntry>> {
    q.map_values(|b: Vec<OwnedEntry>| b@)
}

/// The models of all entries across a sequence of batches, in order.
pub open spec fn flat_models(batches: Seq<Seq<OwnedEntry>>) -> Seq<EntryModel>
    decreases batches.len(),
{
    if batches.len() == 0 {
        Seq::empty()
    } else {
        flat_models(batches.drop_last()) + models_of(batches.last())
    }
}

/// Appending a batch appends its models to the flattening.
proof fn lemma_flat_push(q: Seq<Seq<OwnedEntry>>, b: Seq<OwnedEntry>)
    ensures
        flat_models(q.push(b)) == flat_models(q) + models_of(b),
{
    assert(q.push(b).drop_last() =~= q);
    assert(q.push(b).last() == b);
}

/// Ceiling division for positive divisors.
pub open spec fn ceil_div(a: int, b: int) -> int
    recommends
        b >= 1,
{
    (a + b - 1) / b
}

/// Exchange the elements at positions `i < j`.
fn vec_swap<T>(v: &mut Vec<T>, i: usize, j: usize)
    requires
        i < j < old(v)@.len(),
    ensures
        final(v)@ == old(v)@.update(i as int, old(v)@[j as int]).update(
            j as int,
            old(v)@[i as int],
        ),
{
    let b = v.remove(j);
    let a = v.remove(i);
    v.insert(i, b);
    v.insert(j, a);
    proof {
        let s = old(v)@;
        assert(v@ =~= s.update(i as int, s[j as int]).update(j as int, s[i as int]));
    }
}

/// Exchanging two elements leaves the multiset of elements unchanged.
proof fn lemma_swap_multiset<T>(s: Seq<T>, i: int, j: int)
    requires
        0 <= i < j < s.len(),
    ensures
        s.update(i, s[j]).update(j, s[i]).to_multiset() == s.to_multiset(),
{
    broadcast use vstd::seq_lib::group_to_multiset_ensures;
    broadcast use vstd::multiset::group_multiset_axioms;

    let t1 = s.update(i, s[j]);
    let t2 = t1.update(j, s[i]);
    assert(t1.to_multiset() == s.to_multiset().insert(s[j]).remove(s[i]));
    assert(t1[j] == s[j]);
    assert(t2.to_multiset() == t1.to_multiset().insert(s[i]).remove(s[j]));
    assert(s.contains(s[i]));
    assert(s.contains(s[j]));
    assert(s.to_multiset().count(s[i]) > 0);
    assert(s.to_multiset().count(s[j]) > 0);
    assert(t2.to_multiset() =~= s.to_multiset());
}

/// Updating one entry updates the model sequence pointwise.
proof fn lemma_models_update(s: Seq<OwnedEntry>, i: int, e: OwnedEntry)
    requires
        0 <= i < s.len(),
    ensures
        models_of(s.update(i, e)) == models_of(s).update(i, model_of(e)),
{
    assert(models_of(s.update(i, e)) =~= models_of(s).update(i, model_of(e)));
}

/// Cursor position after `k` calls to `sample` on a loader with `n`
/// batches whose cursor starts at 0: the cursor wraps to 0 once it has
/// reached `n`, and each call advances it past the batch it served.
pub open spec fn cursor_after(k: nat, n: nat) -> nat
    decreases k,
{
    if k == 0 {
        0
    } else {
        let p = cursor_after((k - 1) as nat, n);
        let cur: nat = if p == n {
            0
        } else {
            p
        };
        cur + 1
    }
}

/// Index of the batch served by the `k`-th call (counting from 0) to
/// `sample` on a loader with `n` batches whose cursor starts at 0.
pub open spec fn served_batch(k: nat, n: nat) -> nat {
    let p = cursor_after(k, n);
    if p == n {
        0
    } else {
        p
    }
}

/// Cyclic sampling: the `k`-th call to `sample` serves batch `k % n`.
pub proof fn lemma_cyclic_sampling(k: nat, n: nat)
    requires
        n >= 1,
    ensures
        served_batch(k, n) == k % n,
    decreases k,
{
    if k == 0 {
        vstd::arithmetic::div_mod::lemma_small_mod(0, n);
    } else {
        lemma_cyclic_sampling((k - 1) as nat, n);
        let r = (k - 1) as nat % n;
        vstd::arithmetic::div_mod::lemma_fundamental_div_mod((k - 1) as int, n as int);
        let q = (k - 1) as int / n as int;
        assert((k - 1) as int == q * n + r);
        if r + 1 == n {
            assert(k as int == (q + 1) * n + 0) by (nonlinear_arith)
                requires
                    (k - 1) as int == q * n + r,
                    r + 1 == n,
            ;
            vstd::arithmetic::div_mod::lemma_fundamental_div_mod_converse_mod(
                k as int,
                n as int,
                q + 1,
                0,
            );
        } else {
            assert(k as int == q * n + (r + 1));
            vstd::arithmetic::div_mod::lemma_fundamental_div_mod_converse_mod(
                k as int,
                n as int,
                q,
                r + 1 as int,
            );
        }
    }
}

/// One full cycle of `sample` calls returns to the first batch: with `n`
/// batches, call number `n` serves the same batch as call number 0.
pub proof fn lemma_cycle_wraps(n: nat)
    requires
        n >= 1,
    ensures
        served_batch(n, n) == served_batch(0, n),
{
    lemma_cyclic_sampling(n, n);
    lemma_cyclic_sampling(0, n);
    vstd::arithmetic::div_mod::lemma_mod_self_0(n as int);
    vstd::arithmetic::div_mod::lemma_small_mod(0, n);
}

/// Batches of entries copied out of a database, served cyclically.
#[derive(Clone, Debug)]
pub struct DataLoader {
    queue: Vec<Vec<OwnedEntry>>,
    idx: usize,
}

impl DataLoader {
    /// The stored batches.
    pub closed spec fn batches(&self) -> Seq<Seq<OwnedEntry>> {
        batch_views(self.queue@)
    }

    /// The cursor: index of the next batch to serve (`batches().len()`
    /// immediately before a wrap).
    pub closed spec fn cursor(&self) -> int {
        self.idx as int
    }

    /// Structural well-formedness: at least one batch, none empty, and
    /// the cursor within range.
    pub open spec fn wf(&self) -> bool {
        &&& self.batches().len() >= 1
        &&& 0 <= self.cursor() <= self.batches().len()
        &&& forall|i: int|
            0 <= i < self.batches().len() ==> #[trigger] self.batches()[i].len() >= 1
    }

    /// True when every stored entry has exactly `n` inputs.
    pub open spec fn entries_dim_ok(&self, n: int) -> bool {
        forall|i: int, k: int|
            0 <= i < self.batches().len() && 0 <= k < self.batches()[i].len() ==> (
            #[trigger] self.batches()[i][k]).inputs_spec().len() == n
    }

    /// Returns a new data loader over the given database.
    ///
    /// The database is only read here, never stored: every entry is
    /// copied into an owned batch. The index range `[0, size)` is
    /// optionally shuffled (Fisher-Yates, one uniform draw per step),
    /// then split into consecutive chunks of `batch_size`, the last
    /// possibly smaller. Construction fails fast on a zero batch size or
    /// an empty database.
    pub fn new<E: Entry, D: Database<E>>(database: D, batch_size: usize, shuffle: bool) -> (r:
        Result<DataLoader, ConfigError>)
        ensures
            match r {
                Ok(loader) => {
                    let n = database.size_spec();
                    let flat = flat_models(loader.batches());
                    &&& batch_size >= 1
                    &&& n >= 1
                    &&& loader.wf()
                    &&& loader.cursor() == 0
                    &&& loader.batches().len() == ceil_div(n, batch_size as int)
                    &&& forall|i: int|
                        0 <= i < loader.batches().len() - 1 ==> (#[trigger] loader.batches()[i]).len()
                            == batch_size
                    &&& loader.batches().last().len() == n - (loader.batches().len() - 1)
                        * batch_size
                    &&& flat.len() == n
                    &&& forall|i: int, k: int|
                        0 <= i < loader.batches().len() && 0 <= k < loader.batches()[i].len()
                            ==> model_of(#[trigger] loader.batches()[i][k]) == flat[i * (
                        batch_size as int) + k]
                    &&& flat.to_multiset() == db_models(&database, n).to_multiset()
                    &&& !shuffle ==> flat == db_models(&database, n)
                },
                Err(e) => {
                    &&& (batch_size == 0 || database.size_spec() == 0)
                    &&& (e == ConfigError::ZeroBatchSize <==> batch_size == 0)
                    &&& (e == ConfigError::EmptyDatabase <==> (batch_size >= 1
                        && database.size_spec() == 0))
                },
            },
    {
        if batch_size == 0 {
            return Err(ConfigError::ZeroBatchSize);
        }
        let n = database.size();
        if n == 0 {
            return Err(ConfigError::EmptyDatabase);
        }
        // Copy every entry out of the database, in index order.
        let mut entries: Vec<OwnedEntry> = Vec::new();
        let mut i: usize = 0;
        while i < n
            invariant
                n as int == database.size_spec(),
                i <= n,
                entries@.len() == i,
                forall|t: int|
                    0 <= t < i ==> model_of(#[trigger] entries@[t]) == database.entry_model(t),
            decreases n - i,
        {
            let e = database.get(i);
            let inputs = e.get_inputs();
            let expected = e.get_expected_output();
            entries.push(OwnedEntry { inputs, expected });
            i += 1;
        }
        proof {
            assert(models_of(entries@) =~= db_models(&database, n as int));
        }
        // Optionally shuffle the owned entries in place.
        if shuffle && n > 1 {
            let mut i: usize = n - 1;
            while i >= 1
                invariant
                    entries@.len() == n,
                    i < n,
                    models_of(entries@).to_multiset() == db_models(
                        &database,
                        n as int,
                    ).to_multiset(),
                decreases i,
            {
                let j = rand_below(i + 1);
                if j != i {
                    let ghost before = entries@;
                    vec_swap(&mut entries, j, i);
                    proof {
                        lemma_models_update(before, j as int, before[i as int]);
                        lemma_models_update(
                            before.update(j as int, before[i as int]),
                            i as int,
                            before[j as int],
                        );
                        assert(models_of(before).update(j as int, model_of(before[i as int]))[
                            i as int] == model_of(before[i as int]));
                        assert(models_of(entries@) == models_of(before).update(
                            j as int,
                            models_of(before)[i as int],
                        ).update(i as int, models_of(before)[j as int]));
                        lemma_swap_multiset(models_of(before), j as int, i as int);
                    }
                }
                i -= 1;
            }
        }
        let ghost full = models_of(entries@);
        proof {
            assert(full.len() == n);
            assert(full.to_multiset() == db_models(&database, n as int).to_multiset()) by {
                if !(shuffle && n > 1) {
                    assert(full == db_models(&database, n as int));
                }
            }
        }
        // Partition into consecutive chunks of `batch_size`.
        let mut queue: Vec<Vec<OwnedEntry>> = Vec::new();
        while entries.len() > 0
            invariant
                batch_size >= 1,
                full.len() == n,
                n >= 1,
                entries@.len() <= n,
                models_of(entries@) == full.skip(n - entries@.len()),
                queue@.len() >= 1 ==> {
                    let last = batch_views(queue@).last();
                    &&& 1 <= last.len() <= batch_size
                    &&& n - entries@.len() == (queue@.len() - 1) * (batch_size as int) + last.len()
                },
                queue@.len() == 0 ==> entries@.len() == n,
                entries@.len() > 0 ==> n - entries@.len() == queue@.len() * (batch_size as int),
                forall|t: int|
                    0 <= t < queue@.len() - 1 ==> #[trigger] batch_views(queue@)[t].len()
                        == batch_size,
                forall|t: int, k: int|
                    0 <= t < queue@.len() && 0 <= k < batch_views(queue@)[t].len() ==> model_of(
                        #[trigger] batch_views(queue@)[t][k],
                    ) == full[t * (batch_size as int) + k],
                flat_models(batch_views(queue@)) == full.take(n - entries@.len()),
            decreases entries@.len(),
        {
            let ghost base = n - entries@.len();
            proof {
                if queue@.len() >= 1 {
                    assert(batch_views(queue@).last().len() == batch_size) by (nonlinear_arith)
                        requires
                            n - entries@.len() == queue@.len() * (batch_size as int),
                            n - entries@.len() == (queue@.len() - 1) * (batch_size as int)
                                + batch_views(queue@).last().len(),
                    ;
                }
            }
            let mut batch: Vec<OwnedEntry> = Vec::new();
            let mut k: usize = 0;
            while k < batch_size && entries.len() > 0
                invariant
                    batch_size >= 1,
                    full.len() == n,
                    k <= batch_size,
                    batch@.len() == k,
                    base + k + entries@.len() == n,
                    base >= 0,
                    models_of(entries@) == full.skip(base + k),
                    forall|t: int|
                        0 <= t < k ==> model_of(#[trigger] batch@[t]) == full[base + t],
                    k == 0 ==> entries@.len() > 0,
                decreases batch_size - k,
            {
                let ghost before = entries@;
                let e = entries.remove(0);
                proof {
                    assert(models_of(before)[0] == model_of(e));
                    assert(models_of(entries@) =~= models_of(before).drop_first());
                    assert(models_of(before).drop_first() =~= full.skip(base + k + 1));
                }
                batch.push(e);
                k += 1;
            }
            proof {
                assert(k >= 1);
            }
            let ghost old_queue = queue@;
            queue.push(batch);
            proof {
                assert(batch_views(queue@) =~= batch_views(old_queue).push(batch@));
                lemma_flat_push(batch_views(old_queue), batch@);
                assert(models_of(batch@) =~= full.subrange(base, base + k));
                assert(flat_models(batch_views(queue@)) =~= full.take(base + k));
                assert(n - entries@.len() == (queue@.len() - 1) * (batch_size as int)
                    + batch@.len()) by (nonlinear_arith)
                    requires
                        base == (queue@.len() - 1) * (batch_size as int),
                        batch@.len() == k,
                        base + k + entries@.len() == n,
                ;
                assert(entries@.len() > 0 ==> n - entries@.len() == queue@.len() * (
                batch_size as int)) by (nonlinear_arith)
                    requires
                        base == (queue@.len() - 1) * (batch_size as int),
                        batch@.len() == k,
                        base + k + entries@.len() == n,
                        entries@.len() > 0 ==> k == batch_size,
                ;
            }
        }
        let loader = DataLoader { queue, idx: 0 };
        proof {
            let bs = loader.batches();
            let qlen = bs.len();
            let ll = bs.last().len();
            assert(qlen >= 1);
            assert(n == (qlen - 1) * (batch_size as int) + ll);
            assert(flat_models(bs) =~= full);
            assert(n + batch_size - 1 == qlen * (batch_size as int) + (ll - 1))
                by (nonlinear_arith)
                requires
                    n == (qlen - 1) * (batch_size as int) + ll,
            ;
            vstd::arithmetic::div_mod::lemma_fundamental_div_mod_converse_div(
                n + batch_size - 1,
                batch_size as int,
                qlen as int,
                ll - 1,
            );
        }
        Ok(loader)
    }

    /// Number of batches.
    pub fn batch_count(&self) -> (r: usize)
        ensures
            r as int == self.batches().len(),
    {
        self.queue.len()
    }

    /// True when every stored entry has exactly `n` inputs.
    pub fn check_dims(&self, n: usize) -> (r: bool)
        ensures
            r == self.entries_dim_ok(n as int),
    {
        let mut i: usize = 0;
        while i < self.queue.len()
            invariant
                i <= self.queue@.len(),
                forall|t: int, k: int|
                    0 <= t < i && 0 <= k < self.batches()[t].len() ==> (
                    #[trigger] self.batches()[t][k]).inputs_spec().len() == n,
            decreases self.queue@.len() - i,
        {
            let mut k: usize = 0;
            while k < self.queue[i].len()
                invariant
                    i < self.queue@.len(),
                    k <= self.batches()[i as int].len(),
                    forall|t: int|
                        0 <= t < k ==> (#[trigger] self.batches()[i as int][t]).inputs_spec().len()
                            == n,
                decreases self.queue@[i as int]@.len() - k,
            {
                if self.queue[i][k].inputs.len() != n {
                    return false;
                }
                k += 1;
            }
            i += 1;
        }
        true
    }

    /// Sample a batch of entries: serve the batch at the cursor, then
    /// advance it; a cursor that has reached the end wraps to the first
    /// batch first. The stream is cyclic and never ends.
    pub fn sample(&mut self) -> (batch: Vec<OwnedEntry>)
        requires
            old(self).wf(),
        ensures
            final(self).wf(),
            final(self).batches() == old(self).batches(),
            ({
                let cur = if old(self).cursor() == old(self).batches().len() {
                    0int
                } else {
                    old(self).cursor()
                };
                &&& batch@.len() == old(self).batches()[cur].len()
                &&& models_of(batch@) == models_of(old(self).batches()[cur])
                &&& final(self).cursor() == cur + 1
            }),
    {
        if self.idx == self.queue.len() {
            self.idx = 0;
        }
        let mut out: Vec<OwnedEntry> = Vec::new();
        let mut k: usize = 0;
        while k < self.queue[self.idx].len()
            invariant
                self.idx < self.queue@.len(),
                k <= self.queue@[self.idx as int]@.len(),
                out@.len() == k,
                forall|t: int|
                    0 <= t < k ==> model_of(#[trigger] out@[t]) == model_of(
                        self.queue@[self.idx as int]@[t],
                    ),
            decreases self.queue@[self.idx as int]@.len() - k,
        {
            let e = self.queue[self.idx][k].duplicate();
            proof {
                assert(model_of(e) == model_of(self.queue@[self.idx as int]@[k as int]));
            }
            out.push(e);
            k += 1;
        }
        proof {
            assert(models_of(out@) =~= models_of(self.batches()[self.idx as int]));
        }
        self.idx = self.idx + 1;
        out
    }
}

} // verus!
