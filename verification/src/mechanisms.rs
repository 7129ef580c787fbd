//! Release of integer data under the geometric mechanism: noise drawn for
//! each value is added to it.  The noise itself is drawn by the caller; this
//! module combines it with the data, which is held column by column.

use vstd::prelude::*;
use crate::operators::in_range;

verus! {

/// Columns of values as sequences.
pub open spec fn columns_of(v: Seq<Vec<i64>>) -> Seq<Seq<i64>> {
    v.map_values(|c: Vec<i64>| c@)
}

/// Row `r` of column `c` receives noise: both the data and the noise have
/// that entry.
pub open spec fn receives_noise(data: Seq<Seq<i64>>, noise: Seq<Seq<i64>>, c: int, r: int) -> bool {
    0 <= c < data.len() && c < noise.len() && 0 <= r < data[c].len() && r < noise[c].len()
}

/// Every sum of a value and its noise fits in an `i64`.
pub open spec fn noise_fits(data: Seq<Seq<i64>>, noise: Seq<Seq<i64>>) -> bool {
    forall|c: int, r: int| #[trigger] receives_noise(data, noise, c, r) ==> in_range(data[c][r] + noise[c][r])
}

/// The data with the noise added where both have an entry; other values are
/// kept as they are.
pub open spec fn noised(data: Seq<Seq<i64>>, noise: Seq<Seq<i64>>) -> Seq<Seq<i64>> {
    Seq::new(data.len(), |c: int| Seq::new(data[c].len(), |r: int|
        if receives_noise(data, noise, c, r) { (data[c][r] + noise[c][r]) as i64 } else { data[c][r] }))
}

fn add_noise_column(column: &Vec<i64>, noise: &Vec<i64>) -> (r: Vec<i64>)
    requires
        forall|i: int| 0 <= i < column@.len() && i < noise@.len() ==> in_range(column@[i] + noise@[i]),
    ensures
        r@.len() == column@.len(),
        forall|i: int| 0 <= i < column@.len() ==> #[trigger] r@[i] == (if i < noise@.len() {
            (column@[i] + noise@[i]) as i64
        } else {
            column@[i]
        }),
{
    let mut out: Vec<i64> = Vec::new();
    let mut i: usize = 0;
    while i < column.len()
        invariant
            i <= column@.len(),
            out@.len() == i,
            forall|j: int| 0 <= j < column@.len() && j < noise@.len() ==> in_range(column@[j] + noise@[j]),
            forall|j: int| 0 <= j < i ==> #[trigger] out@[j] == (if j < noise@.len() {
                (column@[j] + noise@[j]) as i64
            } else {
                column@[j]
            }),
        decreases column@.len() - i,
    {
        if i < noise.len() {
            out.push(column[i] + noise[i]);
        } else {
            out.push(column[i]);
        }
        i = i + 1;
    }
    out
}

/// Adds to each value of `data` the noise drawn for it: `noise[c][r]` goes
/// to row `r` of column `c`.  Where the noise has fewer columns or rows than
/// the data, the remaining values are released as they are.
pub fn add_noise_columns(data: &Vec<Vec<i64>>, noise: &Vec<Vec<i64>>) -> (r: Vec<Vec<i64>>)
    requires
        noise_fits(columns_of(data@), columns_of(noise@)),
    ensures
        columns_of(r@) == noised(columns_of(data@), columns_of(noise@)),
{
    let ghost d = columns_of(data@);
    let ghost n = columns_of(noise@);
    let mut out: Vec<Vec<i64>> = Vec::new();
    let mut c: usize = 0;
    while c < data.len()
        invariant
            c <= data@.len(),
            out@.len() == c,
            d == columns_of(data@),
            n == columns_of(noise@),
            noise_fits(d, n),
            forall|j: int| 0 <= j < c ==> #[trigger] columns_of(out@)[j] == noised(d, n)[j],
        decreases data@.len() - c,
    {
        let column = &data[c];
        let noisy = if c < noise.len() {
            let column_noise = &noise[c];
            assert forall|i: int| 0 <= i < column@.len() && i < column_noise@.len() implies
                in_range(column@[i] + column_noise@[i]) by {
                assert(receives_noise(d, n, c as int, i));
            }
            add_noise_column(column, column_noise)
        } else {
            add_noise_column(column, &Vec::new())
        };
        assert(noisy@ =~= noised(d, n)[c as int]);
        let ghost prev = out@;
        out.push(noisy);
        proof {
            assert forall|j: int| 0 <= j < c + 1 implies #[trigger] columns_of(out@)[j] == noised(d, n)[j] by {
                if j < c {
                    assert(out@[j] == prev[j]);
                    assert(columns_of(prev)[j] == noised(d, n)[j]);
                }
            }
        }
        c = c + 1;
    }
    assert(columns_of(out@) =~= noised(d, n));
    out
}

/// Zero noise releases the data as it is.
pub proof fn law_zero_noise_keeps_data(data: Seq<Seq<i64>>, noise: Seq<Seq<i64>>)
    requires
        forall|c: int, r: int| 0 <= c < noise.len() && 0 <= r < noise[c].len() ==> #[trigger] noise[c][r] == 0,
    ensures
        noised(data, noise) == data,
{
    let out = noised(data, noise);
    assert forall|c: int| 0 <= c < data.len() implies #[trigger] out[c] == data[c] by {
        assert forall|r: int| 0 <= r < data[c].len() implies #[trigger] out[c][r] == data[c][r] by {
            if receives_noise(data, noise, c, r) {
                assert(noise[c][r] == 0);
            }
        }
        assert(out[c] =~= data[c]);
    }
    assert(out =~= data);
}

/// Adding noise keeps the shape of the data.
pub proof fn law_noise_keeps_shape(data: Seq<Seq<i64>>, noise: Seq<Seq<i64>>)
    ensures
        noised(data, noise).len() == data.len(),
        forall|c: int| 0 <= c < data.len() ==> #[trigger] noised(data, noise)[c].len() == data[c].len(),
{
}

} // verus!
