//! Batching of spans: spans are sorted by address and neighbours closer than
//! a threshold are read together in one request.

use vstd::prelude::*;

use crate::register::{ParseError, Timestamp};
use crate::span::{Span, SpanParser};

verus! {

/// Address at which a span ends (one past its last register).
pub open spec fn span_end<T: Span>(t: T) -> int {
    t.span_address() + t.span_quantity()
}

/// A run of spans read in one request covering `quantity` registers from
/// `address`.
#[derive(Debug)]
pub struct Batch<T> {
    pub address: u16,
    pub quantity: u16,
    pub inner: Vec<T>,
}

/// The model of a batch.
pub struct BatchModel<T> {
    pub address: u16,
    pub quantity: u16,
    pub inner: Seq<T>,
}

impl<T> View for Batch<T> {
    type V = BatchModel<T>;

    open spec fn view(&self) -> BatchModel<T> {
        BatchModel { address: self.address, quantity: self.quantity, inner: self.inner@ }
    }
}

impl<T> Span for Batch<T> {
    open spec fn span_address(&self) -> u16 {
        self.address
    }

    open spec fn span_quantity(&self) -> u16 {
        self.quantity
    }

    fn address(&self) -> (r: u16) {
        self.address
    }

    fn quantity(&self) -> (r: u16) {
        self.quantity
    }
}

/// Inserts a span into spans sorted by address, after every span whose
/// address is not greater.
pub open spec fn insert_by_address<T: Span>(s: Seq<T>, x: T) -> Seq<T>
    decreases s.len(),
{
    if s.len() == 0 {
        seq![x]
    } else if x.span_address() < s[0].span_address() {
        seq![x] + s
    } else {
        seq![s[0]] + insert_by_address(s.drop_first(), x)
    }
}

/// Spans sorted by address, spans with equal addresses in the order they
/// came in (a stable sort).
pub open spec fn sort_by_address<T: Span>(s: Seq<T>) -> Seq<T>
    decreases s.len(),
{
    if s.len() == 0 {
        s
    } else {
        insert_by_address(sort_by_address(s.drop_last()), s.last())
    }
}

/// True when the addresses do not decrease along the sequence.
pub open spec fn sorted_by_address<T: Span>(s: Seq<T>) -> bool {
    forall|i: int, j: int| 0 <= i <= j < s.len() ==> s[i].span_address() <= s[j].span_address()
}

/// Grouping of sorted spans into batches, starting from the batch being
/// built: the next span joins it when the gap between them is below the
/// threshold, and starts a new batch otherwise.
pub open spec fn group<T: Span>(current: BatchModel<T>, rest: Seq<T>, threshold: u16) -> Seq<
    BatchModel<T>,
>
    decreases rest.len(),
{
    if rest.len() == 0 {
        seq![current]
    } else {
        let span = rest[0];
        let gap = span.span_address() - (current.address + current.quantity);
        if gap < threshold {
            group(
                BatchModel {
                    address: current.address,
                    quantity: (span_end(span) - current.address) as u16,
                    inner: current.inner.push(span),
                },
                rest.drop_first(),
                threshold,
            )
        } else {
            seq![current] + group(
                BatchModel {
                    address: span.span_address(),
                    quantity: span.span_quantity(),
                    inner: seq![span],
                },
                rest.drop_first(),
                threshold,
            )
        }
    }
}

/// The batch that a single span starts.
pub open spec fn start_batch<T: Span>(span: T) -> BatchModel<T> {
    BatchModel { address: span.span_address(), quantity: span.span_quantity(), inner: seq![span] }
}

/// The batches that the spans are read in.
pub open spec fn batches_spec<T: Span>(spans: Seq<T>, threshold: u16) -> Seq<BatchModel<T>> {
    let s = sort_by_address(spans);
    if s.len() == 0 {
        Seq::empty()
    } else {
        group(start_batch(s[0]), s.drop_first(), threshold)
    }
}

/// True when sorted spans can be batched: each span ends no later than the
/// next one starts, and the last span fits below address 65536 when it joins
/// the batch before it.
pub open spec fn batchable<T: Span>(s: Seq<T>, threshold: u16) -> bool {
    &&& forall|k: int| #![trigger s[k]] 1 <= k < s.len() ==> span_end(s[k - 1]) <= s[k].span_address()
    &&& (s.len() >= 2 && s.last().span_address() - span_end(s[s.len() - 2]) < threshold)
        ==> span_end(s.last()) <= u16::MAX
}

proof fn lemma_insert_at<T: Span>(s: Seq<T>, x: T, p: int)
    requires
        0 <= p <= s.len(),
        forall|j: int| 0 <= j < p ==> s[j].span_address() <= x.span_address(),
        p < s.len() ==> s[p].span_address() > x.span_address(),
    ensures
        insert_by_address(s, x) == s.take(p).push(x) + s.skip(p),
    decreases s.len(),
{
    if s.len() == 0 {
        assert(s.take(p).push(x) + s.skip(p) =~= seq![x]);
    } else if p == 0 {
        assert(s.take(p).push(x) + s.skip(p) =~= seq![x] + s);
    } else {
        lemma_insert_at(s.drop_first(), x, p - 1);
        assert(s.take(p).push(x) + s.skip(p) =~= seq![s[0]] + (s.drop_first().take(p - 1).push(x)
            + s.drop_first().skip(p - 1)));
    }
}

proof fn lemma_insert_sorted<T: Span>(s: Seq<T>, x: T)
    requires
        sorted_by_address(s),
    ensures
        sorted_by_address(insert_by_address(s, x)),
        insert_by_address(s, x).len() == s.len() + 1,
        insert_by_address(s, x).to_multiset() == s.to_multiset().insert(x),
    decreases s.len(),
{
    broadcast use vstd::seq_lib::group_to_multiset_ensures;

    if s.len() == 0 {
        assert(seq![x] =~= Seq::<T>::empty().push(x));
    } else if x.span_address() < s[0].span_address() {
        assert(seq![x] + s =~= s.insert(0, x));
    } else {
        lemma_insert_sorted(s.drop_first(), x);
        let r = insert_by_address(s.drop_first(), x);
        assert(seq![s[0]] + r =~= r.insert(0, s[0]));
        assert(s =~= s.drop_first().insert(0, s[0]));
        let t = seq![s[0]] + r;
        assert forall|i: int, j: int| 0 <= i <= j < t.len() implies t[i].span_address()
            <= t[j].span_address() by {
            if i == 0 && j > 0 {
                let y = r[j - 1];
                assert(r.to_multiset().count(y) > 0);
                assert(s.drop_first().to_multiset().insert(x).count(y) > 0);
                if y != x {
                    assert(s.drop_first().to_multiset().count(y) > 0);
                    assert(s.drop_first().contains(y));
                }
            }
        }
    }
}

proof fn lemma_sort<T: Span>(s: Seq<T>)
    ensures
        sorted_by_address(sort_by_address(s)),
        sort_by_address(s).len() == s.len(),
        sort_by_address(s).to_multiset() == s.to_multiset(),
    decreases s.len(),
{
    broadcast use vstd::seq_lib::group_to_multiset_ensures;

    if s.len() > 0 {
        lemma_sort(s.drop_last());
        lemma_insert_sorted(sort_by_address(s.drop_last()), s.last());
        assert(s =~= s.drop_last().push(s.last()));
    }
}

/// The spans sorted by address (see [`sort_by_address`]).
fn sort_spans<T: Span>(spans: Vec<T>) -> (sorted: Vec<T>)
    ensures
        sorted@ == sort_by_address(spans@),
{
    let ghost all = spans@;
    let mut input = spans;
    let mut sorted: Vec<T> = Vec::new();
    let ghost mut i: int = 0;
    assert(all.take(0) =~= Seq::<T>::empty());
    while input.len() > 0
        invariant
            0 <= i <= all.len(),
            input@ == all.skip(i),
            sorted@ == sort_by_address(all.take(i)),
        decreases input@.len(),
    {
        proof {
            lemma_sort(all.take(i));
        }
        let x = input.remove(0);
        let a = x.address();
        let n = sorted.len();
        let mut p: usize = 0;
        while p < n && sorted[p].address() <= a
            invariant
                p <= n,
                n == sorted@.len(),
                forall|j: int| 0 <= j < p ==> sorted@[j].span_address() <= a,
            decreases n - p,
        {
            p = p + 1;
        }
        proof {
            lemma_insert_at(sorted@, x, p as int);
            assert(all.take(i + 1).drop_last() =~= all.take(i));
            assert(all.take(i + 1).last() == x);
            assert(all.skip(i + 1) =~= all.skip(i).drop_first());
        }
        sorted.insert(p, x);
        assert(sorted@ =~= sort_by_address(all.take(i + 1)));
        proof {
            i = i + 1;
        }
    }
    assert(all.take(i) =~= all);
    sorted
}

/// Groups spans into batches (see [`batches_spec`]): the spans are sorted by
/// address, and each span joins the batch of the span before it when the gap
/// between them is below `threshold`.
pub fn batch_spans<T: Span>(spans: Vec<T>, threshold: u16) -> (batches: Vec<Batch<T>>)
    requires
        batchable(sort_by_address(spans@), threshold),
    ensures
        batches@.map_values(|b: Batch<T>| b@) == batches_spec(spans@, threshold),
{
    let ghost all = spans@;
    let sorted = sort_spans(spans);
    group_sorted(sorted, threshold, Ghost(all))
}

/// Groups spans into batches, or none when they cannot be batched: when two
/// spans overlap, or the last span would take a batch past the last
/// address.
pub fn batch_spans_checked<T: Span>(spans: Vec<T>, threshold: u16) -> (r: Option<Vec<Batch<T>>>)
    ensures
        r is None <==> !batchable(sort_by_address(spans@), threshold),
        r matches Some(batches) ==> batches@.map_values(|b: Batch<T>| b@) == batches_spec(
            spans@,
            threshold,
        ),
{
    let ghost all = spans@;
    let sorted = sort_spans(spans);
    if !sorted_batchable(&sorted, threshold) {
        return None;
    }
    Some(group_sorted(sorted, threshold, Ghost(all)))
}

/// Whether sorted spans can be batched (see [`batchable`]).
fn sorted_batchable<T: Span>(s: &Vec<T>, threshold: u16) -> (r: bool)
    ensures
        r == batchable(s@, threshold),
{
    let n = s.len();
    let mut k: usize = 1;
    while k < n
        invariant
            n == s@.len(),
            1 <= k,
            forall|j: int| #![trigger s@[j]] 1 <= j < k && j < n ==> span_end(s@[j - 1]) <= s@[j].span_address(),
        decreases n - k,
    {
        let end = (s[k - 1].address() as u32) + (s[k - 1].quantity() as u32);
        if end > s[k].address() as u32 {
            assert(!(span_end(s@[k - 1]) <= s@[k as int].span_address()));
            return false;
        }
        k = k + 1;
    }
    if n >= 2 {
        let previous = (s[n - 2].address() as i64) + (s[n - 2].quantity() as i64);
        let gap = (s[n - 1].address() as i64) - previous;
        let last_end = (s[n - 1].address() as u32) + (s[n - 1].quantity() as u32);
        if gap < threshold as i64 && last_end > 65535 {
            return false;
        }
    }
    true
}

#[verifier::rlimit(40)]
#[verifier::spinoff_prover]
fn group_sorted<T: Span>(sorted: Vec<T>, threshold: u16, Ghost(all): Ghost<Seq<T>>) -> (batches: Vec<
    Batch<T>,
>)
    requires
        sorted@ == sort_by_address(all),
        batchable(sorted@, threshold),
    ensures
        batches@.map_values(|b: Batch<T>| b@) == batches_spec(all, threshold),
{
    let mut sorted = sorted;
    let ghost s = sorted@;
    proof {
        lemma_sort(all);
    }
    if sorted.len() == 0 {
        let empty: Vec<Batch<T>> = Vec::new();
        assert(empty@.map_values(|b: Batch<T>| b@) =~= Seq::<BatchModel<T>>::empty());
        return empty;
    }
    let first = sorted.remove(0);
    let mut current = Batch { address: first.address(), quantity: first.quantity(), inner: vec![first] };
    let mut batches: Vec<Batch<T>> = Vec::new();
    let ghost mut k: int = 1;
    assert(current@.inner =~= seq![s[0]]);
    assert(sorted@ =~= s.drop_first());
    while sorted.len() > 0
        invariant
            1 <= k <= s.len(),
            s == sort_by_address(all),
            sorted_by_address(s),
            batchable(s, threshold),
            sorted@ == s.skip(k),
            current.address + current.quantity == span_end(s[k - 1]),
            current.address <= s[k - 1].span_address(),
            batches@.map_values(|b: Batch<T>| b@) + group(current@, sorted@, threshold) == group(
                start_batch(s[0]),
                s.drop_first(),
                threshold,
            ),
        decreases sorted@.len(),
    {
        let ghost before = batches@.map_values(|b: Batch<T>| b@);
        let ghost rest = sorted@;
        let span = sorted.remove(0);
        assert(span == s[k]);
        assert(span_end(s[k - 1]) <= s[k].span_address());
        let end = current.address + current.quantity;
        let gap = span.address() - end;
        if gap < threshold {
            assert(k < s.len() - 1 ==> span_end(s[k]) <= s[k + 1].span_address());
            assert(k == s.len() - 1 ==> s.last() == s[k] && s[s.len() - 2] == s[k - 1]);
            let quantity = span.address() + span.quantity() - current.address;
            let ghost old_current = current@;
            current.quantity = quantity;
            current.inner.push(span);
            assert(current@ == BatchModel {
                address: old_current.address,
                quantity: (span_end(s[k]) - old_current.address) as u16,
                inner: old_current.inner.push(s[k]),
            });
            assert(rest.drop_first() =~= sorted@);
        } else {
            let ghost old_current = current@;
            batches.push(current);
            current = Batch { address: span.address(), quantity: span.quantity(), inner: vec![span] };
            assert(current@.inner =~= seq![s[k]]);
            assert(current@ == start_batch(s[k]));
            assert(rest.drop_first() =~= sorted@);
            assert(batches@.map_values(|b: Batch<T>| b@) =~= before.push(old_current));
            assert(before + (seq![old_current] + group(current@, sorted@, threshold)) =~= before.push(
                old_current,
            ) + group(current@, sorted@, threshold));
        }
        proof {
            k = k + 1;
        }
    }
    let ghost before = batches@.map_values(|b: Batch<T>| b@);
    let ghost last = current@;
    batches.push(current);
    assert(batches@.map_values(|b: Batch<T>| b@) =~= before.push(last));
    assert(before + seq![last] =~= before.push(last));
    batches
}

/// The spans of batches, batch after batch.
pub open spec fn flatten_batches<T>(bs: Seq<BatchModel<T>>) -> Seq<T>
    decreases bs.len(),
{
    if bs.len() == 0 {
        Seq::empty()
    } else {
        bs[0].inner + flatten_batches(bs.drop_first())
    }
}

/// True when the batch's registers cover every span of the batch.
pub open spec fn covers<T: Span>(b: BatchModel<T>) -> bool {
    forall|j: int|
        0 <= j < b.inner.len() ==> b.address <= (#[trigger] b.inner[j]).span_address() && span_end(
            b.inner[j],
        ) <= b.address + b.quantity
}

#[verifier::spinoff_prover]
#[verifier::rlimit(30)]
proof fn lemma_group<T: Span>(s: Seq<T>, k: int, cur: BatchModel<T>, threshold: u16)
    requires
        batchable(s, threshold),
        sorted_by_address(s),
        1 <= k <= s.len(),
        cur.address + cur.quantity == span_end(s[k - 1]),
        covers(cur),
    ensures
        flatten_batches(group(cur, s.skip(k), threshold)) == cur.inner + s.skip(k),
        forall|i: int|
            0 <= i < group(cur, s.skip(k), threshold).len() ==> covers(
                #[trigger] group(cur, s.skip(k), threshold)[i],
            ),
    decreases s.len() - k,
{
    let rest = s.skip(k);
    let g = group(cur, rest, threshold);
    if rest.len() == 0 {
        assert(g == seq![cur]);
        assert(g.drop_first() =~= Seq::<BatchModel<T>>::empty());
        assert(flatten_batches(g.drop_first()) =~= Seq::<T>::empty());
        assert(flatten_batches(g) == cur.inner + flatten_batches(g.drop_first()));
        assert(cur.inner + rest =~= cur.inner);
        assert(cur.inner + Seq::<T>::empty() =~= cur.inner);
    } else {
        let span = rest[0];
        assert(span == s[k]);
        assert(rest.drop_first() =~= s.skip(k + 1));
        assert(span_end(s[k - 1]) <= s[k].span_address());
        let gap = span.span_address() - (cur.address + cur.quantity);
        if gap < threshold {
            assert(k < s.len() - 1 ==> span_end(s[k]) <= s[k + 1].span_address());
            assert(k == s.len() - 1 ==> s.last() == s[k] && s[s.len() - 2] == s[k - 1]);
            let next = BatchModel {
                address: cur.address,
                quantity: (span_end(span) - cur.address) as u16,
                inner: cur.inner.push(span),
            };
            assert(covers(next)) by {
                assert forall|j: int| 0 <= j < next.inner.len() implies next.address <= (
                #[trigger] next.inner[j]).span_address() && span_end(next.inner[j]) <= next.address
                    + next.quantity by {
                    if j < cur.inner.len() {
                        assert(next.inner[j] == cur.inner[j]);
                    }
                }
            }
            lemma_group(s, k + 1, next, threshold);
            assert(next.inner + s.skip(k + 1) =~= cur.inner + rest);
        } else {
            let next = start_batch(span);
            assert(covers(next)) by {
                assert(next.inner[0] == span);
            }
            lemma_group(s, k + 1, next, threshold);
            let tail = group(next, s.skip(k + 1), threshold);
            assert(g == seq![cur] + tail);
            assert(g.drop_first() =~= tail);
            assert(next.inner + s.skip(k + 1) =~= rest);
            assert(flatten_batches(g) == cur.inner + flatten_batches(tail));
            assert(cur.inner + (next.inner + s.skip(k + 1)) =~= cur.inner + rest);
            assert forall|i: int| 0 <= i < g.len() implies covers(#[trigger] g[i]) by {
                if i > 0 {
                    assert(g[i] == tail[i - 1]);
                }
            }
        }
    }
}

/// Law: batching reads every span exactly once: the spans of the batches,
/// batch after batch, are the spans sorted by address, which hold the same
/// spans as the input; and each batch's registers cover each of its spans.
pub proof fn law_batches_partition_spans<T: Span>(spans: Seq<T>, threshold: u16)
    requires
        batchable(sort_by_address(spans), threshold),
    ensures
        flatten_batches(batches_spec(spans, threshold)) == sort_by_address(spans),
        flatten_batches(batches_spec(spans, threshold)).to_multiset() == spans.to_multiset(),
        forall|i: int|
            0 <= i < batches_spec(spans, threshold).len() ==> covers(
                #[trigger] batches_spec(spans, threshold)[i],
            ),
{
    let s = sort_by_address(spans);
    lemma_sort(spans);
    if s.len() > 0 {
        let first = start_batch(s[0]);
        assert(covers(first)) by {
            assert(first.inner[0] == s[0]);
        }
        assert(s.drop_first() =~= s.skip(1));
        lemma_group(s, 1, first, threshold);
        assert(first.inner + s.skip(1) =~= s);
    } else {
        assert(batches_spec(spans, threshold) =~= Seq::<BatchModel<T>>::empty());
    }
}

/// A copy of the registers `start..end`.
fn copy_range(data: &[u16], start: usize, end: usize) -> (r: Vec<u16>)
    requires
        start <= end <= data@.len(),
    ensures
        r@ == data@.subrange(start as int, end as int),
{
    let mut r: Vec<u16> = Vec::new();
    let mut i = start;
    while i < end
        invariant
            start <= i <= end,
            end <= data@.len(),
            r@ =~= data@.subrange(start as int, i as int),
        decreases end - i,
    {
        r.push(data[i]);
        i = i + 1;
    }
    r
}

/// The registers of the batch's data that a span covers.
pub open spec fn span_data<P: Span>(batch_address: u16, span: P, data: Seq<u16>) -> Seq<u16> {
    data.subrange(
        span.span_address() - batch_address,
        span.span_address() - batch_address + span.span_quantity(),
    )
}

/// How parsing the span at `i` of a batch goes: an error when it starts
/// before the batch, the span's own parse result otherwise.
pub open spec fn span_outcome<P: SpanParser>(
    batch_address: u16,
    inner: Seq<P>,
    data: Seq<u16>,
    timestamp: Timestamp,
    i: int,
) -> Result<(), ParseError> {
    if inner[i].span_address() < batch_address {
        Err(ParseError::SpanStart)
    } else {
        inner[i].parse_result(span_data(batch_address, inner[i], data), timestamp)
    }
}

/// The first error among the spans from `i` on, if any.
pub open spec fn first_error<P: SpanParser>(
    batch_address: u16,
    inner: Seq<P>,
    data: Seq<u16>,
    timestamp: Timestamp,
    i: int,
) -> Result<(), ParseError>
    decreases inner.len() - i,
{
    if i >= inner.len() || i < 0 {
        Ok(())
    } else {
        match span_outcome(batch_address, inner, data, timestamp, i) {
            Err(e) => Err(e),
            Ok(_) => first_error(batch_address, inner, data, timestamp, i + 1),
        }
    }
}

/// True when the spans before `i` all parse.
pub open spec fn spans_parse_before<P: SpanParser>(
    batch_address: u16,
    inner: Seq<P>,
    data: Seq<u16>,
    timestamp: Timestamp,
    i: int,
) -> bool {
    forall|j: int| 0 <= j < i ==> #[trigger] span_outcome(batch_address, inner, data, timestamp, j) is Ok
}

proof fn lemma_first_error<P: SpanParser>(
    batch_address: u16,
    inner: Seq<P>,
    data: Seq<u16>,
    timestamp: Timestamp,
    i: int,
)
    requires
        0 <= i <= inner.len(),
        spans_parse_before(batch_address, inner, data, timestamp, i),
    ensures
        first_error(batch_address, inner, data, timestamp, 0) == first_error(
            batch_address,
            inner,
            data,
            timestamp,
            i,
        ),
    decreases i,
{
    if i > 0 {
        lemma_first_error(batch_address, inner, data, timestamp, i - 1);
        assert(span_outcome(batch_address, inner, data, timestamp, i - 1) is Ok);
    }
}

impl<P: SpanParser> Batch<P> {
    /// True when no span that parsing reaches reads past the data: parsing
    /// stops at the first span that fails, so only spans after successful
    /// ones count.
    pub open spec fn data_covers(&self, data: Seq<u16>, timestamp: Timestamp) -> bool {
        forall|i: int|
            0 <= i < self.inner@.len() && spans_parse_before(self.address, self.inner@, data, timestamp, i)
                && self.inner@[i].span_address() >= self.address ==> #[trigger] span_end(
                self.inner@[i],
            ) - self.address <= data.len()
    }

    /// Parses the registers read for the batch: each span parses the
    /// registers it covers, and the first span that fails decides the error.
    pub fn parse_with_timestamp(&self, data: &[u16], timestamp: Timestamp) -> (r: Result<
        Batch<P::Parsed>,
        ParseError,
    >)
        requires
            forall|i: int| 0 <= i < self.inner@.len() ==> #[trigger] self.inner@[i].parser_wf(),
            2 * data@.len() <= usize::MAX,
            self.data_covers(data@, timestamp),
        ensures
            match r {
                Ok(b) => {
                    &&& first_error(self.address, self.inner@, data@, timestamp, 0) is Ok
                    &&& b.address == self.address
                    &&& b.quantity == self.quantity
                    &&& b.inner@.len() == self.inner@.len()
                    &&& forall|i: int|
                        0 <= i < self.inner@.len() ==> self.inner@[i].parsed_from(
                            span_data(self.address, self.inner@[i], data@),
                            timestamp,
                            #[trigger] b.inner@[i],
                        )
                },
                Err(e) => first_error(self.address, self.inner@, data@, timestamp, 0) == Err::<
                    (),
                    ParseError,
                >(e),
            },
    {
        let mut inner: Vec<P::Parsed> = Vec::new();
        let n = self.inner.len();
        let mut i: usize = 0;
        while i < n
            invariant
                n == self.inner@.len(),
                i <= n,
                inner@.len() == i,
                forall|k: int| 0 <= k < self.inner@.len() ==> #[trigger] self.inner@[k].parser_wf(),
                2 * data@.len() <= usize::MAX,
                self.data_covers(data@, timestamp),
                spans_parse_before(self.address, self.inner@, data@, timestamp, i as int),
                forall|j: int|
                    0 <= j < i ==> self.inner@[j].parsed_from(
                        span_data(self.address, self.inner@[j], data@),
                        timestamp,
                        #[trigger] inner@[j],
                    ),
            decreases n - i,
        {
            let span = &self.inner[i];
            let address = span.address();
            proof {
                lemma_first_error(self.address, self.inner@, data@, timestamp, i as int);
            }
            if address < self.address {
                assert(span_outcome(self.address, self.inner@, data@, timestamp, i as int) == Err::<
                    (),
                    ParseError,
                >(ParseError::SpanStart));
                return Err(ParseError::SpanStart);
            }
            let start = (address - self.address) as usize;
            let end = start + span.quantity() as usize;
            assert(span_end(self.inner@[i as int]) - self.address <= data@.len());
            let slice = copy_range(data, start, end);
            match span.parse_with_timestamp(slice.as_slice(), timestamp) {
                Ok(parsed) => {
                    inner.push(parsed);
                },
                Err(e) => {
                    return Err(e);
                },
            }
            proof {
                assert forall|j: int| 0 <= j < i + 1 implies #[trigger] span_outcome(
                    self.address,
                    self.inner@,
                    data@,
                    timestamp,
                    j,
                ) is Ok by {
                    if j < i {
                        assert(span_outcome(self.address, self.inner@, data@, timestamp, j) is Ok);
                    }
                }
            }
            i = i + 1;
        }
        proof {
            lemma_first_error(self.address, self.inner@, data@, timestamp, n as int);
        }
        Ok(Batch { address: self.address, quantity: self.quantity, inner })
    }
}

} // verus!
