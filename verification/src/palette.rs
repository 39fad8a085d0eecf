// Color palette.
use vstd::prelude::*;
use vstd::std_specs::convert::FromSpec;
use crate::chan::{Ch8, Channel};
use crate::el::{Pixel, chan_value, holds, quad};
use crate::rgb::{Rgb, SRgb8, abs_diff, difference_quad, within};

verus! {

/// Threshold of a palette: the largest difference, channel by channel, at
/// which a color matches an entry, given the number of entries.
pub trait Threshold: Sized {
    /// Can the threshold be computed for `len` entries?
    spec fn defined_at(&self, len: usize) -> bool;

    /// Can `t` be the threshold for a palette with `len` entries?
    spec fn gives(&self, len: usize, t: SRgb8) -> bool;

    /// Get the threshold for a palette with `len` entries.
    fn threshold(&self, len: usize) -> (t: SRgb8)
        requires
            self.defined_at(len),
        ensures
            self.gives(len, t),
    ;
}

/// The threshold of a new palette: colors match only themselves.
#[derive(Clone, Copy, Debug)]
pub struct ExactMatch;

impl Threshold for ExactMatch {
    open spec fn defined_at(&self, len: usize) -> bool {
        true
    }

    open spec fn gives(&self, len: usize, t: SRgb8) -> bool {
        holds(t, seq![0nat, 0nat, 0nat])
    }

    fn threshold(&self, len: usize) -> (t: SRgb8) {
        SRgb8::zero()
    }
}

impl<F: Fn(usize) -> SRgb8> Threshold for F {
    open spec fn defined_at(&self, len: usize) -> bool {
        call_requires(*self, (len,))
    }

    open spec fn gives(&self, len: usize, t: SRgb8) -> bool {
        call_ensures(*self, (len,), t)
    }

    fn threshold(&self, len: usize) -> (t: SRgb8) {
        (self)(len)
    }
}

/// Difference between two colors, as the *red*, *green*, *blue* values of
/// an `SRgb8`, with *alpha* at one.
pub open spec fn diff_quad(a: SRgb8, b: SRgb8) -> Seq<nat> {
    seq![
        abs_diff(chan_value(a, 0), chan_value(b, 0)),
        abs_diff(chan_value(a, 1), chan_value(b, 1)),
        abs_diff(chan_value(a, 2), chan_value(b, 2)),
        255,
    ]
}

/// Is every value of `a` at most the same value of `b`?
pub open spec fn within_quad(a: Seq<nat>, b: Seq<nat>) -> bool {
    forall|i: int| 0 <= i < 4 ==> a[i] <= b[i]
}

/// Closest entry to `clr` among the first `n` entries of `table`: its index
/// and difference.  A later entry replaces the best so far where its
/// difference is within, and not equal to, the best difference.
pub open spec fn best_match_spec(table: Seq<SRgb8>, clr: SRgb8, n: int) -> Option<(int, Seq<nat>)>
    decreases n,
{
    if n <= 0 {
        None
    } else {
        let best = best_match_spec(table, clr, n - 1);
        let dif = diff_quad(clr, table[n - 1]);
        match best {
            Some((_, d)) => if within_quad(dif, d) && dif != d {
                Some((n - 1, dif))
            } else {
                best
            },
            None => Some((n - 1, dif)),
        }
    }
}

/// Index that `set_entry` gives for `clr`, with threshold `t`: a matching
/// entry, or a new entry where room is left, or `None`.
pub open spec fn set_entry_result(table: Seq<SRgb8>, capacity: int, clr: SRgb8, t: SRgb8) -> Option<
    int,
> {
    match best_match_spec(table, clr, table.len() as int) {
        Some((i, dif)) if within_quad(dif, quad(t)) => Some(i),
        _ => if table.len() < capacity {
            Some(table.len() as int)
        } else {
            None
        },
    }
}

/// Number of entries of `s` equal to `k`.
pub open spec fn count_of(s: Seq<nat>, k: nat) -> nat
    decreases s.len(),
{
    if s.len() == 0 {
        0
    } else {
        count_of(s.drop_last(), k) + if s.last() == k { 1nat } else { 0nat }
    }
}

/// Color palette: a table of `SRgb8` colors, filled up to a capacity.
pub struct Palette<T: Threshold = ExactMatch> {
    table: Vec<SRgb8>,
    capacity: usize,
    threshold_fn: T,
}

impl Palette<ExactMatch> {
    /// Create a new palette with room for `capacity` entries.
    pub fn new(capacity: usize) -> (p: Self)
        ensures
            p.table_spec() == Seq::<SRgb8>::empty(),
            p.capacity_spec() == capacity,
    {
        let table = Vec::with_capacity(capacity);
        Palette { table, capacity, threshold_fn: ExactMatch }
    }
}

impl<T: Threshold> Palette<T> {
    /// A palette never holds more entries than its capacity.
    #[verifier::type_invariant]
    spec fn within_capacity(&self) -> bool {
        self.table@.len() <= self.capacity
    }

    /// The entries.
    pub closed spec fn table_spec(&self) -> Seq<SRgb8> {
        self.table@
    }

    /// Room for entries.
    pub closed spec fn capacity_spec(&self) -> int {
        self.capacity as int
    }

    /// The threshold function.
    pub closed spec fn threshold_spec(&self) -> T {
        self.threshold_fn
    }

    /// Get the number of entries.
    pub fn len(&self) -> (n: usize)
        ensures
            n == self.table_spec().len(),
            n <= self.capacity_spec(),
    {
        proof {
            use_type_invariant(self);
        }
        self.table.len()
    }

    /// Check if the palette is empty.
    pub fn is_empty(&self) -> (b: bool)
        ensures
            b == (self.table_spec().len() == 0),
    {
        self.table.len() == 0
    }

    /// Set the threshold function, which gives the threshold for matching
    /// entries from the number of entries.
    pub fn set_threshold_fn<U: Threshold>(self, threshold_fn: U) -> (p: Palette<U>)
        ensures
            p.table_spec() == self.table_spec(),
            p.capacity_spec() == self.capacity_spec(),
            p.threshold_spec() == threshold_fn,
    {
        proof {
            use_type_invariant(&self);
        }
        Palette { table: self.table, capacity: self.capacity, threshold_fn }
    }

    /// Get the palette as bytes: *red*, *green*, *blue* of each entry.
    pub fn as_u8_slice(&self) -> (v: Vec<u8>)
        ensures
            v@.len() == 3 * self.table_spec().len(),
            forall|i: int, c: int|
                0 <= i < self.table_spec().len() && 0 <= c < 3 ==> #[trigger] v@[3 * i + c]
                    == #[trigger] self.table_spec()[i].chans()[c]@,
    {
        let mut v: Vec<u8> = Vec::new();
        let mut i: usize = 0;
        while i < self.table.len()
            invariant
                i <= self.table@.len(),
                v@.len() == 3 * i,
                forall|j: int, c: int|
                    0 <= j < i && 0 <= c < 3 ==> #[trigger] v@[3 * j + c]
                        == #[trigger] self.table@[j].chans()[c]@,
            decreases self.table@.len() - i,
        {
            let e = self.table[i];
            proof {
                SRgb8::lemma_count(e);
            }
            let ch = e.channels();
            v.push(ch[0].get());
            v.push(ch[1].get());
            v.push(ch[2].get());
            proof {
                assert forall|j: int, c: int|
                    0 <= j < i + 1 && 0 <= c < 3 implies #[trigger] v@[3 * j + c]
                    == #[trigger] self.table@[j].chans()[c]@ by {
                    if j < i {
                        assert(3 * j + c < 3 * i);
                    } else {
                        assert(3 * j + c == 3 * i + c);
                    }
                }
            }
            i += 1;
        }
        v
    }

    /// Get an entry.
    pub fn entry(&self, i: usize) -> (e: Option<SRgb8>)
        ensures
            e == if i < self.table_spec().len() {
                Some(self.table_spec()[i as int])
            } else {
                None::<SRgb8>
            },
    {
        if i < self.table.len() {
            Some(self.table[i])
        } else {
            None
        }
    }

    /// Replace an entry, giving back the old one.
    pub fn replace_entry(&mut self, i: usize, clr: SRgb8) -> (e: Option<SRgb8>)
        ensures
            e == if i < old(self).table_spec().len() {
                Some(old(self).table_spec()[i as int])
            } else {
                None::<SRgb8>
            },
            final(self).table_spec() == if i < old(self).table_spec().len() {
                old(self).table_spec().update(i as int, clr)
            } else {
                old(self).table_spec()
            },
            final(self).capacity_spec() == old(self).capacity_spec(),
            final(self).threshold_spec() == old(self).threshold_spec(),
    {
        proof {
            use_type_invariant(&*self);
        }
        if i < self.table.len() {
            let old = self.table[i];
            let mut table: Vec<SRgb8> = Vec::new();
            core::mem::swap(&mut table, &mut self.table);
            table.set(i, clr);
            self.table = table;
            Some(old)
        } else {
            None
        }
    }

    /// Are two colors the same in every channel?
    fn same_color(a: SRgb8, b: SRgb8) -> (r: bool)
        ensures
            r == (quad(a) == quad(b)),
    {
        let r = a.one().same_as(b.one()) && a.two().same_as(b.two()) && a.three().same_as(
            b.three(),
        ) && a.four().same_as(b.four());
        proof {
            SRgb8::lemma_count(a);
            SRgb8::lemma_count(b);
            if r {
                assert(quad(a) =~= quad(b));
            }
        }
        r
    }

    /// Difference between two colors.
    fn color_difference(a: SRgb8, b: SRgb8) -> (d: SRgb8)
        ensures
            quad(d) == diff_quad(a, b),
    {
        let d = Rgb::difference(a, b);
        proof {
            SRgb8::lemma_count(d);
            assert(quad(d) =~= diff_quad(a, b));
        }
        d
    }

    /// Find the closest entry to a color.
    fn best_match(&self, clr: SRgb8) -> (r: Option<(usize, SRgb8)>)
        ensures
            match (r, best_match_spec(self.table_spec(), clr, self.table_spec().len() as int)) {
                (None, None) => true,
                (Some((i, d)), Some((j, dq))) => i == j && quad(d) == dq,
                _ => false,
            },
    {
        let mut best: Option<(usize, SRgb8)> = None;
        let mut i: usize = 0;
        while i < self.table.len()
            invariant
                i <= self.table@.len(),
                match (best, best_match_spec(self.table@, clr, i as int)) {
                    (None, None) => true,
                    (Some((k, d)), Some((j, dq))) => k == j && quad(d) == dq,
                    _ => false,
                },
            decreases self.table@.len() - i,
        {
            let dif = Self::color_difference(clr, self.table[i]);
            let better = match best {
                Some((_, d)) => Rgb::within_threshold(dif, d) && !Self::same_color(dif, d),
                None => true,
            };
            proof {
                if let Some((_, d)) = best {
                    SRgb8::lemma_count(dif);
                    SRgb8::lemma_count(d);
                    assert(within(dif, d) == within_quad(quad(dif), quad(d)));
                }
            }
            if better {
                best = Some((i, dif));
            }
            i += 1;
        }
        best
    }

    /// Find or add a color, with a given threshold for matching.
    ///
    /// Gives the index of the closest entry where its difference is within
    /// `threshold`; otherwise adds the color where room is left.
    pub fn set_entry_with_threshold(&mut self, clr: SRgb8, threshold: SRgb8) -> (r: Option<usize>)
        ensures
            match (r, set_entry_result(old(self).table_spec(), old(self).capacity_spec(), clr, threshold)) {
                (None, None) => true,
                (Some(i), Some(j)) => i == j,
                _ => false,
            },
            final(self).table_spec() == if r matches Some(i) && i == old(self).table_spec().len() {
                old(self).table_spec().push(clr)
            } else {
                old(self).table_spec()
            },
            final(self).capacity_spec() == old(self).capacity_spec(),
            final(self).threshold_spec() == old(self).threshold_spec(),
    {
        let found = self.best_match(clr);
        if let Some((i, dif)) = found {
            proof {
                SRgb8::lemma_count(dif);
                SRgb8::lemma_count(threshold);
                assert(within(dif, threshold) == within_quad(quad(dif), quad(threshold)));
            }
            if Rgb::within_threshold(dif, threshold) {
                proof {
                    assert(i < self.table@.len()) by {
                        lemma_best_match_index(self.table@, clr, self.table@.len() as int);
                    }
                }
                return Some(i);
            }
        }
        let i = self.table.len();
        if i < self.capacity {
            let mut table: Vec<SRgb8> = Vec::new();
            core::mem::swap(&mut table, &mut self.table);
            table.push(clr);
            self.table = table;
            Some(i)
        } else {
            None
        }
    }

    /// Find or add a color, matching with the threshold function.
    ///
    /// Gives the index of the closest entry where its difference is within
    /// the threshold for the current number of entries; otherwise adds the
    /// color where room is left.  The threshold is one that the threshold
    /// function gives for the current number of entries.
    pub fn set_entry(&mut self, clr: SRgb8) -> (r: Option<usize>)
        requires
            old(self).threshold_spec().defined_at(old(self).table_spec().len() as usize),
        ensures
            exists|t: SRgb8|
                old(self).threshold_spec().gives(old(self).table_spec().len() as usize, t)
                    && match (#[trigger] set_entry_result(
                    old(self).table_spec(),
                    old(self).capacity_spec(),
                    clr,
                    t,
                ), r) {
                    (None, None) => true,
                    (Some(j), Some(i)) => i == j,
                    _ => false,
                },
            final(self).table_spec() == if r matches Some(i) && i == old(self).table_spec().len() {
                old(self).table_spec().push(clr)
            } else {
                old(self).table_spec()
            },
            final(self).capacity_spec() == old(self).capacity_spec(),
            final(self).threshold_spec() == old(self).threshold_spec(),
    {
        let t = self.threshold_fn.threshold(self.table.len());
        let ghost before = *self;
        let r = self.set_entry_with_threshold(clr, t);
        assert(match (set_entry_result(before.table_spec(), before.capacity_spec(), clr, t), r) {
            (None, None) => true,
            (Some(j), Some(i)) => i == j,
            _ => false,
        });
        r
    }

    /// Count how often each entry index occurs in `ent`.
    ///
    /// Gives `None` where an index is past the last entry.
    pub fn histogram<E: Copy>(&self, ent: &[E]) -> (h: Option<Vec<usize>>)
        where
            usize: From<E>,
        requires
            <usize as FromSpec<E>>::obeys_from_spec(),
        ensures
            h is Some <==> forall|j: int|
                0 <= j < ent@.len() ==> (#[trigger] <usize as FromSpec<E>>::from_spec(ent@[j]))
                    < self.table_spec().len(),
            h matches Some(v) ==> v@.len() == self.table_spec().len() && forall|k: int|
                0 <= k < v@.len() ==> #[trigger] v@[k] == count_of(
                    ent@.map_values(|e: E| <usize as FromSpec<E>>::from_spec(e) as nat),
                    k as nat,
                ),
    {
        let n = self.table.len();
        let mut hist: Vec<usize> = Vec::new();
        let mut k: usize = 0;
        while k < n
            invariant
                k <= n,
                hist@ == Seq::new(k as nat, |j: int| 0usize),
            decreases n - k,
        {
            hist.push(0);
            k += 1;
        }
        let ghost idx = ent@.map_values(|e: E| <usize as FromSpec<E>>::from_spec(e) as nat);
        let mut j: usize = 0;
        while j < ent.len()
            invariant
                j <= ent@.len(),
                n == self.table@.len(),
                hist@.len() == n,
                <usize as FromSpec<E>>::obeys_from_spec(),
                idx == ent@.map_values(|e: E| <usize as FromSpec<E>>::from_spec(e) as nat),
                forall|m: int| 0 <= m < j ==> #[trigger] idx[m] < n,
                forall|k: int| 0 <= k < n ==> #[trigger] hist@[k] == count_of(idx.take(j as int), k as nat),
                forall|k: int| 0 <= k < n ==> hist@[k] <= j,
            decreases ent@.len() - j,
        {
            let i = usize::from(ent[j]);
            if i < hist.len() {
                proof {
                    assert(idx.take(j + 1).drop_last() =~= idx.take(j as int));
                }
                let c = hist[i];
                hist.set(i, c + 1);
            } else {
                proof {
                    assert(idx[j as int] >= n);
                }
                return None;
            }
            j += 1;
        }
        proof {
            assert(idx.take(ent@.len() as int) =~= idx);
            assert forall|j: int| 0 <= j < ent@.len() implies (#[trigger] <usize as FromSpec<E>>::from_spec(ent@[j]))
                < self.table_spec().len() by {
                assert(idx[j] < n);
            }
        }
        Some(hist)
    }
}

/// The index that `best_match_spec` gives is an index of the table.
pub proof fn lemma_best_match_index(table: Seq<SRgb8>, clr: SRgb8, n: int)
    requires
        0 <= n <= table.len(),
    ensures
        best_match_spec(table, clr, n) matches Some((i, _)) ==> 0 <= i < n,
    decreases n,
{
    if n > 0 {
        lemma_best_match_index(table, clr, n - 1);
    }
}

/// The best match is some entry before `n`, and its difference is the
/// difference from that entry.
pub proof fn lemma_best_match_entry(table: Seq<SRgb8>, clr: SRgb8, n: int)
    requires
        0 <= n <= table.len(),
    ensures
        best_match_spec(table, clr, n) matches Some((k, d)) ==> 0 <= k < n && d == diff_quad(
            clr,
            table[k],
        ),
    decreases n,
{
    if n > 0 {
        lemma_best_match_entry(table, clr, n - 1);
    }
}

/// Is the difference `a` strictly closer than `b`: at most `b` in *red*,
/// *green* and *blue*, and below it in one of them?
pub open spec fn strictly_closer(a: Seq<nat>, b: Seq<nat>) -> bool {
    &&& a[0] <= b[0] && a[1] <= b[1] && a[2] <= b[2]
    &&& a[0] < b[0] || a[1] < b[1] || a[2] < b[2]
}

/// The best match among the first `n` entries is never beaten outright:
/// no entry among them is strictly closer to the color in every channel.
pub proof fn lemma_best_match_undominated(table: Seq<SRgb8>, clr: SRgb8, n: int)
    requires
        0 <= n <= table.len(),
    ensures
        best_match_spec(table, clr, n) matches Some((k, d)) ==> forall|j: int|
            0 <= j < n ==> !strictly_closer(
                #[trigger] diff_quad(clr, table[j]),
                diff_quad(clr, table[k]),
            ),
    decreases n,
{
    if n > 0 {
        lemma_best_match_undominated(table, clr, n - 1);
        lemma_best_match_entry(table, clr, n - 1);
        lemma_best_match_entry(table, clr, n);
        let dif = diff_quad(clr, table[n - 1]);
        if let Some((k, d)) = best_match_spec(table, clr, n) {
            if let Some((k0, d0)) = best_match_spec(table, clr, n - 1) {
                if within_quad(dif, d0) && dif != d0 {
                    // the new entry replaced the best so far
                    assert(k == n - 1);
                    assert forall|j: int| 0 <= j < n implies !strictly_closer(
                        #[trigger] diff_quad(clr, table[j]),
                        diff_quad(clr, table[k]),
                    ) by {
                        let e = diff_quad(clr, table[j]);
                        if j < n - 1 && strictly_closer(e, dif) {
                            assert(dif[3] == 255 && d0[3] == 255);
                            assert(within_quad(dif, d0));
                            assert(dif[0] <= d0[0] && dif[1] <= d0[1] && dif[2] <= d0[2]);
                            if !strictly_closer(e, d0) {
                                assert(e[0] == d0[0] && e[1] == d0[1] && e[2] == d0[2]);
                                assert(dif =~= d0);
                            }
                        }
                    }
                } else {
                    assert(k == k0);
                    assert forall|j: int| 0 <= j < n implies !strictly_closer(
                        #[trigger] diff_quad(clr, table[j]),
                        diff_quad(clr, table[k]),
                    ) by {
                        if j == n - 1 && strictly_closer(dif, d0) {
                            assert(dif[3] == 255 && d0[3] == 255);
                            assert(within_quad(dif, d0));
                        }
                    }
                }
            } else {
                assert(n - 1 == 0);
            }
        }
    }
}

/// `set_entry` gives an existing entry only where no entry is strictly
/// closer to the color in every channel: the match is never beaten
/// outright by another entry.
pub proof fn lemma_set_entry_not_dominated(
    table: Seq<SRgb8>,
    capacity: int,
    clr: SRgb8,
    t: SRgb8,
    k: int,
)
    requires
        set_entry_result(table, capacity, clr, t) == Some(k),
        k < table.len(),
    ensures
        forall|j: int|
            0 <= j < table.len() ==> !strictly_closer(
                #[trigger] diff_quad(clr, table[j]),
                diff_quad(clr, table[k]),
            ),
{
    lemma_best_match_undominated(table, clr, table.len() as int);
    lemma_best_match_entry(table, clr, table.len() as int);
}

/// The difference of two colors is zero (with *alpha* at one) exactly when
/// they have the same channels.
pub proof fn lemma_diff_zero(a: SRgb8, b: SRgb8)
    ensures
        (diff_quad(a, b) == seq![0nat, 0nat, 0nat, 255nat]) == (quad(a) == quad(b)),
{
    SRgb8::lemma_count(a);
    SRgb8::lemma_count(b);
    if quad(a) == quad(b) {
        assert(quad(a)[0] == quad(b)[0] && quad(a)[1] == quad(b)[1] && quad(a)[2] == quad(b)[2]);
        assert(diff_quad(a, b) =~= seq![0nat, 0nat, 0nat, 255nat]);
    }
    if diff_quad(a, b) == seq![0nat, 0nat, 0nat, 255nat] {
        assert(diff_quad(a, b)[0] == 0 && diff_quad(a, b)[1] == 0 && diff_quad(a, b)[2] == 0);
        assert(quad(a) =~= quad(b));
    }
}

/// A color that is in the table is found at the first entry holding it,
/// whatever the threshold and room left.
pub proof fn lemma_set_entry_finds_color(
    table: Seq<SRgb8>,
    capacity: int,
    clr: SRgb8,
    t: SRgb8,
    i: int,
)
    requires
        0 <= i < table.len(),
        quad(table[i]) == quad(clr),
        forall|j: int| 0 <= j < i ==> quad(#[trigger] table[j]) != quad(clr),
    ensures
        set_entry_result(table, capacity, clr, t) == Some(i),
{
    let zero = seq![0nat, 0nat, 0nat, 255nat];
    lemma_best_match_found(table, clr, i, table.len() as int);
    SRgb8::lemma_count(t);
    lemma_quad_max(t);
}

proof fn lemma_quad_max(t: SRgb8)
    ensures
        quad(t)[3] == 255,
{
    SRgb8::lemma_count(t);
}

proof fn lemma_best_match_found(table: Seq<SRgb8>, clr: SRgb8, i: int, n: int)
    requires
        0 <= i < table.len(),
        i < n <= table.len(),
        quad(table[i]) == quad(clr),
        forall|j: int| 0 <= j < i ==> quad(#[trigger] table[j]) != quad(clr),
    ensures
        best_match_spec(table, clr, n) == Some((i, seq![0nat, 0nat, 0nat, 255nat])),
    decreases n,
{
    let zero = seq![0nat, 0nat, 0nat, 255nat];
    if n == i + 1 {
        lemma_diff_zero(clr, table[i]);
        lemma_best_match_entry(table, clr, i);
        if let Some((k, d)) = best_match_spec(table, clr, i) {
            lemma_diff_zero(clr, table[k]);
            assert(d != zero);
            assert(within_quad(zero, d));
        }
    } else {
        lemma_best_match_found(table, clr, i, n - 1);
        let dif = diff_quad(clr, table[n - 1]);
        if within_quad(dif, zero) {
            assert(dif =~= zero);
        }
    }
}

} // verus!
