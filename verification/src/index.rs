//! The index stream: a sequence of fixed-width size markers, one per committed
//! record, in commit order. The data stream has no structure of its own; the
//! markers alone say where each record ends.

use vstd::prelude::*;

verus! {

/// Width in bytes of one size marker.
pub const MARKER_WIDTH: u64 = 8;

/// The eight bytes that stand for `size` in the index stream, most significant
/// byte first.
pub open spec fn marker_bytes(size: u64) -> Seq<u8> {
    seq![
        (size >> 56) as u8,
        (size >> 48) as u8,
        (size >> 40) as u8,
        (size >> 32) as u8,
        (size >> 24) as u8,
        (size >> 16) as u8,
        (size >> 8) as u8,
        size as u8,
    ]
}

/// The size that the first eight bytes of `bytes` stand for.
pub open spec fn marker_value(bytes: Seq<u8>) -> u64
    recommends
        bytes.len() >= 8,
{
    (bytes[0] as u64) << 56 | (bytes[1] as u64) << 48 | (bytes[2] as u64) << 40 | (bytes[3] as u64)
        << 32 | (bytes[4] as u64) << 24 | (bytes[5] as u64) << 16 | (bytes[6] as u64) << 8
        | bytes[7] as u64
}

/// Reading a marker back gives the size that was written.
pub proof fn lemma_marker_round_trip(size: u64)
    ensures
        marker_bytes(size).len() == 8,
        marker_value(marker_bytes(size)) == size,
{
    let b = marker_bytes(size);
    assert(((size >> 56) as u8 as u64) << 56 | ((size >> 48) as u8 as u64) << 48 | ((size >> 40) as u8 as u64)
        << 40 | ((size >> 32) as u8 as u64) << 32 | ((size >> 24) as u8 as u64) << 24 | ((size
        >> 16) as u8 as u64) << 16 | ((size >> 8) as u8 as u64) << 8 | (size as u8 as u64)
        == size) by (bit_vector);
}

/// The markers of `sizes`, one after another.
pub open spec fn encoded(sizes: Seq<u64>) -> Seq<u8>
    decreases sizes.len(),
{
    if sizes.len() == 0 {
        Seq::empty()
    } else {
        encoded(sizes.drop_last()) + marker_bytes(sizes.last())
    }
}

/// The sizes that the complete markers of `index` stand for. A trailing run
/// of fewer than eight bytes is no marker and is left out.
pub open spec fn entries(index: Seq<u8>) -> Seq<u64> {
    Seq::new(index.len() / 8, |i: int| marker_value(index.subrange(8 * i, 8 * i + 8)))
}

/// Sum of the first `n` sizes: the offset in the data stream at which record
/// `n` begins, and at which record `n - 1` ends.
pub open spec fn boundary(sizes: Seq<u64>, n: int) -> int
    decreases n,
{
    if n <= 0 {
        0
    } else {
        boundary(sizes, n - 1) + sizes[n - 1]
    }
}

/// Total length of the records that `sizes` describes.
pub open spec fn total(sizes: Seq<u64>) -> int {
    boundary(sizes, sizes.len() as int)
}

/// The number of leading entries of `sizes` whose records lie wholly inside a
/// data stream of `data_len` bytes: the largest `n` with
/// `boundary(sizes, n) <= data_len`.
pub open spec fn valid_count(sizes: Seq<u64>, data_len: int) -> int
    decreases sizes.len(),
{
    if sizes.len() == 0 {
        0
    } else {
        let k = valid_count(sizes.drop_last(), data_len);
        if k == sizes.len() - 1 && total(sizes) <= data_len {
            sizes.len() as int
        } else {
            k
        }
    }
}

/// Boundaries depend only on the sizes before them.
pub proof fn lemma_boundary_prefix(a: Seq<u64>, b: Seq<u64>, n: int)
    requires
        0 <= n <= a.len(),
        n <= b.len(),
        forall|i: int| 0 <= i < n ==> a[i] == b[i],
    ensures
        boundary(a, n) == boundary(b, n),
    decreases n,
{
    if n > 0 {
        lemma_boundary_prefix(a, b, n - 1);
    }
}

/// Boundaries never decrease.
pub proof fn lemma_boundary_monotone(sizes: Seq<u64>, m: int, n: int)
    requires
        0 <= m <= n,
    ensures
        0 <= boundary(sizes, m) <= boundary(sizes, n),
    decreases n,
{
    if n > 0 {
        if m < n {
            lemma_boundary_monotone(sizes, m, n - 1);
        } else {
            lemma_boundary_monotone(sizes, m - 1, n - 1);
        }
    }
}

/// What `valid_count` is: it lies within the entries, its records fit, and
/// the entry after it, if there is one, would not.
pub proof fn lemma_valid_count(sizes: Seq<u64>, data_len: int)
    requires
        0 <= data_len,
    ensures
        0 <= valid_count(sizes, data_len) <= sizes.len(),
        boundary(sizes, valid_count(sizes, data_len)) <= data_len,
        valid_count(sizes, data_len) < sizes.len() ==> boundary(
            sizes,
            valid_count(sizes, data_len) + 1,
        ) > data_len,
    decreases sizes.len(),
{
    if sizes.len() > 0 {
        let init = sizes.drop_last();
        lemma_valid_count(init, data_len);
        let k = valid_count(init, data_len);
        lemma_boundary_prefix(sizes, init, k);
        if k < init.len() {
            lemma_boundary_prefix(sizes, init, k + 1);
        }
    }
}

/// `valid_count` is the only count with the three properties of
/// `lemma_valid_count`.
pub proof fn lemma_valid_count_unique(sizes: Seq<u64>, data_len: int, n: int)
    requires
        0 <= data_len,
        0 <= n <= sizes.len(),
        boundary(sizes, n) <= data_len,
        n < sizes.len() ==> boundary(sizes, n + 1) > data_len,
    ensures
        valid_count(sizes, data_len) == n,
{
    lemma_valid_count(sizes, data_len);
    let k = valid_count(sizes, data_len);
    if k < n {
        lemma_boundary_monotone(sizes, k + 1, n);
    } else if n < k {
        lemma_boundary_monotone(sizes, n + 1, k);
    }
}

/// The sizes of the markers of `sizes` are `sizes` again, and every marker
/// takes eight bytes.
pub proof fn lemma_entries_of_encoded(sizes: Seq<u64>)
    ensures
        encoded(sizes).len() == 8 * sizes.len(),
        entries(encoded(sizes)) == sizes,
    decreases sizes.len(),
{
    if sizes.len() == 0 {
        assert(entries(encoded(sizes)) =~= sizes);
    } else {
        let init = sizes.drop_last();
        lemma_entries_of_encoded(init);
        lemma_entries_push(encoded(init), sizes.last());
        assert(init.push(sizes.last()) =~= sizes);
    }
}

/// Appending one marker to a whole number of markers appends its size to the
/// entries.
pub proof fn lemma_entries_push(index: Seq<u8>, size: u64)
    requires
        index.len() % 8 == 0,
    ensures
        (index + marker_bytes(size)).len() == index.len() + 8,
        entries(index + marker_bytes(size)) == entries(index).push(size),
{
    lemma_marker_round_trip(size);
    let longer = index + marker_bytes(size);
    let n = (index.len() / 8) as int;
    assert forall|i: int| 0 <= i < n + 1 implies #[trigger] entries(longer)[i] == entries(
        index,
    ).push(size)[i] by {
        if i < n {
            assert(longer.subrange(8 * i, 8 * i + 8) =~= index.subrange(8 * i, 8 * i + 8));
        } else {
            assert(longer.subrange(8 * i, 8 * i + 8) =~= marker_bytes(size));
        }
    }
    assert(entries(longer) =~= entries(index).push(size));
}

/// Appending the markers of `sizes` to a whole number of markers appends
/// `sizes` to the entries.
pub proof fn lemma_entries_append(index: Seq<u8>, sizes: Seq<u64>)
    requires
        index.len() % 8 == 0,
    ensures
        (index + encoded(sizes)).len() == index.len() + 8 * sizes.len(),
        entries(index + encoded(sizes)) == entries(index) + sizes,
    decreases sizes.len(),
{
    if sizes.len() == 0 {
        assert(index + encoded(sizes) =~= index);
        assert(entries(index) + sizes =~= entries(index));
    } else {
        let init = sizes.drop_last();
        lemma_entries_append(index, init);
        lemma_entries_push(index + encoded(init), sizes.last());
        assert(index + encoded(sizes) =~= (index + encoded(init)) + marker_bytes(sizes.last()));
        assert((entries(index) + init).push(sizes.last()) =~= entries(index) + sizes);
    }
}

/// Cutting the index after `n` markers keeps the first `n` entries, also
/// where a short run of bytes followed the last marker.
pub proof fn lemma_entries_take(index: Seq<u8>, n: int)
    requires
        0 <= n,
        8 * n <= index.len(),
    ensures
        entries(index.take(8 * n)) == entries(index).take(n),
{
    let cut = index.take(8 * n);
    assert forall|i: int| 0 <= i < n implies #[trigger] entries(cut)[i] == entries(index).take(
        n,
    )[i] by {
        assert(cut.subrange(8 * i, 8 * i + 8) =~= index.subrange(8 * i, 8 * i + 8));
    }
    assert(entries(cut) =~= entries(index).take(n));
}

/// Record `i` of a data stream whose records have the lengths `sizes`.
pub open spec fn record(data: Seq<u8>, sizes: Seq<u64>, i: int) -> Seq<u8> {
    data.subrange(boundary(sizes, i), boundary(sizes, i + 1))
}

/// The data stream split at the boundaries that `sizes` gives.
pub open spec fn records(data: Seq<u8>, sizes: Seq<u64>) -> Seq<Seq<u8>> {
    Seq::new(sizes.len(), |i: int| record(data, sizes, i))
}

/// Writes the marker of `size` at the end of `out`.
pub fn encode_marker(size: u64, out: &mut Vec<u8>)
    ensures
        final(out)@ == old(out)@ + marker_bytes(size),
{
    out.push((size >> 56) as u8);
    out.push((size >> 48) as u8);
    out.push((size >> 40) as u8);
    out.push((size >> 32) as u8);
    out.push((size >> 24) as u8);
    out.push((size >> 16) as u8);
    out.push((size >> 8) as u8);
    out.push(size as u8);
    assert(out@ =~= old(out)@ + marker_bytes(size));
}

/// Reads the marker that starts at byte `at` of `index`.
pub fn decode_marker(index: &[u8], at: usize) -> (size: u64)
    requires
        at + 8 <= index@.len(),
    ensures
        size == marker_value(index@.subrange(at as int, at + 8)),
{
    let b0: u64 = index[at] as u64;
    let b1: u64 = index[at + 1] as u64;
    let b2: u64 = index[at + 2] as u64;
    let b3: u64 = index[at + 3] as u64;
    let b4: u64 = index[at + 4] as u64;
    let b5: u64 = index[at + 5] as u64;
    let b6: u64 = index[at + 6] as u64;
    let b7: u64 = index[at + 7] as u64;
    b0 << 56 | b1 << 48 | b2 << 40 | b3 << 32 | b4 << 24 | b5 << 16 | b6 << 8 | b7
}

/// The bytes that committing records of the lengths `sizes` appends to the
/// index stream.
pub fn encode(sizes: &[u64]) -> (out: Vec<u8>)
    ensures
        out@ == encoded(sizes@),
{
    let mut out: Vec<u8> = Vec::new();
    let mut i: usize = 0;
    while i < sizes.len()
        invariant
            i <= sizes@.len(),
            out@ == encoded(sizes@.take(i as int)),
        decreases sizes@.len() - i,
    {
        encode_marker(sizes[i], &mut out);
        assert(sizes@.take(i + 1).drop_last() =~= sizes@.take(i as int));
        i += 1;
    }
    assert(sizes@.take(i as int) =~= sizes@);
    out
}

/// Adding a size adds it to the total.
pub proof fn lemma_total_push(sizes: Seq<u64>, size: u64)
    ensures
        total(sizes.push(size)) == total(sizes) + size,
        forall|n: int| 0 <= n <= sizes.len() ==> boundary(sizes.push(size), n) == boundary(sizes, n),
{
    let longer = sizes.push(size);
    assert forall|n: int| 0 <= n <= sizes.len() implies boundary(longer, n) == boundary(
        sizes,
        n,
    ) by {
        lemma_boundary_prefix(longer, sizes, n);
    }
}

/// The total of two runs of sizes is the sum of their totals.
pub proof fn lemma_total_append(a: Seq<u64>, b: Seq<u64>)
    ensures
        total(a + b) == total(a) + total(b),
        total(b) >= 0,
    decreases b.len(),
{
    if b.len() == 0 {
        assert(a + b =~= a);
    } else {
        lemma_total_append(a, b.drop_last());
        lemma_total_push(a + b.drop_last(), b.last());
        lemma_total_push(b.drop_last(), b.last());
        assert((a + b.drop_last()).push(b.last()) =~= a + b);
        assert(b.drop_last().push(b.last()) =~= b);
    }
}

/// Round trip, one step: where the index describes the whole data stream,
/// appending a payload to the data and its length to the index adds that
/// payload, and nothing else, to the records that replaying gives.
pub proof fn lemma_records_push(data: Seq<u8>, sizes: Seq<u64>, payload: Seq<u8>)
    requires
        total(sizes) == data.len(),
        payload.len() <= u64::MAX,
    ensures
        total(sizes.push(payload.len() as u64)) == (data + payload).len(),
        records(data + payload, sizes.push(payload.len() as u64)) == records(data, sizes).push(
            payload,
        ),
{
    let size = payload.len() as u64;
    let longer = sizes.push(size);
    let more = data + payload;
    lemma_total_push(sizes, size);
    assert forall|i: int| 0 <= i < longer.len() implies #[trigger] records(more, longer)[i]
        == records(data, sizes).push(payload)[i] by {
        if i < sizes.len() {
            lemma_boundary_monotone(sizes, i, i + 1);
            lemma_boundary_monotone(sizes, i + 1, sizes.len() as int);
            assert(more.subrange(boundary(sizes, i), boundary(sizes, i + 1)) =~= data.subrange(
                boundary(sizes, i),
                boundary(sizes, i + 1),
            ));
        } else {
            assert(more.subrange(data.len() as int, more.len() as int) =~= payload);
        }
    }
    assert(records(more, longer) =~= records(data, sizes).push(payload));
}

/// Round trip: a log that was empty and then took the payloads `payloads`,
/// each appended to the data with its length appended to the index, gives
/// exactly `payloads` when it is replayed.
pub proof fn lemma_round_trip(payloads: Seq<Seq<u8>>)
    requires
        forall|i: int| 0 <= i < payloads.len() ==> (#[trigger] payloads[i]).len() <= u64::MAX,
    ensures
        total(lengths(payloads)) == concat(payloads).len(),
        records(concat(payloads), lengths(payloads)) == payloads,
    decreases payloads.len(),
{
    if payloads.len() == 0 {
        assert(records(concat(payloads), lengths(payloads)) =~= payloads);
    } else {
        let init = payloads.drop_last();
        lemma_round_trip(init);
        lemma_records_push(concat(init), lengths(init), payloads.last());
        assert(init.push(payloads.last()) =~= payloads);
    }
}

/// The payloads, one after another: the data stream that writing them
/// leaves.
pub open spec fn concat(payloads: Seq<Seq<u8>>) -> Seq<u8>
    decreases payloads.len(),
{
    if payloads.len() == 0 {
        Seq::empty()
    } else {
        concat(payloads.drop_last()) + payloads.last()
    }
}

/// The lengths of the payloads: the entries that committing them leaves.
pub open spec fn lengths(payloads: Seq<Seq<u8>>) -> Seq<u64>
    decreases payloads.len(),
{
    if payloads.len() == 0 {
        Seq::empty()
    } else {
        lengths(payloads.drop_last()).push(payloads.last().len() as u64)
    }
}

/// Replays a log: splits `data` into the records that the complete entries
/// of `index` describe, as far as they lie wholly inside `data`.
pub fn replay(data: &[u8], index: &[u8]) -> (out: Vec<Vec<u8>>)
    ensures
        out@.len() == valid_count(entries(index@), data@.len() as int),
        forall|i: int|
            0 <= i < out@.len() ==> (#[trigger] out@[i])@ == record(data@, entries(index@), i),
{
    let ghost sizes = entries(index@);
    let mut out: Vec<Vec<u8>> = Vec::new();
    let mut start: usize = 0;
    let mut at: usize = 0;
    loop
        invariant
            sizes == entries(index@),
            at <= index@.len(),
            at == 8 * out@.len(),
            start <= data@.len(),
            start == boundary(sizes, out@.len() as int),
            forall|i: int| 0 <= i < out@.len() ==> (#[trigger] out@[i])@ == record(data@, sizes, i),
        ensures
            out@.len() == valid_count(sizes, data@.len() as int),
            forall|i: int| 0 <= i < out@.len() ==> (#[trigger] out@[i])@ == record(data@, sizes, i),
        decreases index@.len() - at,
    {
        if index.len() - at < 8 {
            proof {
                lemma_valid_count_unique(sizes, data@.len() as int, out@.len() as int);
            }
            break ;
        }
        let size: u64 = decode_marker(index, at);
        if size > (data.len() - start) as u64 {
            proof {
                lemma_valid_count_unique(sizes, data@.len() as int, out@.len() as int);
            }
            break ;
        }
        let end: usize = start + size as usize;
        let piece = vstd::slice::slice_subrange(data, start, end);
        let mut one: Vec<u8> = Vec::new();
        let mut i: usize = 0;
        while i < piece.len()
            invariant
                i <= piece@.len(),
                one@ == piece@.take(i as int),
            decreases piece@.len() - i,
        {
            one.push(piece[i]);
            assert(one@ =~= piece@.take(i + 1));
            i += 1;
        }
        assert(piece@.take(i as int) =~= piece@);
        out.push(one);
        start = end;
        at = at + 8;
    }
    out
}

} // verus!
