//! Columnar write batch for one device path: parallel timestamp and column
//! arrays that stay index-synchronized, a stable sort by timestamp applied
//! as one permutation to every array, and the flat wire buffers the write
//! operation transmits.

use vstd::prelude::*;

use crate::bytes::{push_u64_be, i64_to_u64, spec_u64_be, spec_u64_of_i64};
use crate::client::perm::{apply_perm_i64, apply_perm_values, perm_indices, sort_perm};
use crate::client::{
    spec_encode, spec_schema_like, spec_value_wf, ClientError, MeasurementSchema, Value, ValueV,
};

verus! {

/// The views of a column's values, in row order.
pub open spec fn spec_col_view(col: Seq<Value>) -> Seq<ValueV> {
    col.map_values(|v: Value| v@)
}

/// The wire payload of one value with its leading type tag stripped; on
/// the tablet path the type is already declared by the schema.
pub open spec fn spec_value_payload(v: ValueV) -> Seq<u8> {
    spec_encode(v).drop_first()
}

/// One column's slice of the tablet value buffer: the tag-stripped
/// payloads of its values, in row order.
pub open spec fn spec_column_wire(col: Seq<ValueV>) -> Seq<u8>
    decreases col.len(),
{
    if col.len() == 0 {
        Seq::empty()
    } else {
        spec_column_wire(col.drop_last()) + spec_value_payload(col.last())
    }
}

/// The tablet value buffer: column-major concatenation of the per-column
/// slices, in schema order.
pub open spec fn spec_tablet_wire(cols: Seq<Seq<ValueV>>) -> Seq<u8>
    decreases cols.len(),
{
    if cols.len() == 0 {
        Seq::empty()
    } else {
        spec_tablet_wire(cols.drop_last()) + spec_column_wire(cols.last())
    }
}

/// The tablet timestamp buffer: one 8-byte big-endian signed integer per
/// row, in row order.
pub open spec fn spec_timestamps_wire(ts: Seq<i64>) -> Seq<u8>
    decreases ts.len(),
{
    if ts.len() == 0 {
        Seq::empty()
    } else {
        spec_timestamps_wire(ts.drop_last()) + spec_u64_be(spec_u64_of_i64(ts.last()))
    }
}

/// A timestamp sequence is in non-decreasing order.
pub open spec fn spec_non_decreasing(ts: Seq<i64>) -> bool {
    forall|k1: int, k2: int| 0 <= k1 < k2 < ts.len() ==> ts[k1] <= ts[k2]
}

/// In every well-formed tablet — in particular after any sequence of
/// `add_row` calls, each of which ends in a well-formed tablet — the
/// timestamp array and every column array have the same length.
pub proof fn lemma_tablet_arrays_synced(t: Tablet)
    requires
        t.wf(),
    ensures
        forall|c: int|
            0 <= c < t.spec_columns().len() ==> (#[trigger] t.spec_columns()[c]).len()
                == t.spec_timestamps().len(),
{
}

/// Columnar batch of timestamped rows sharing one schema list.
#[derive(Clone, Debug)]
pub struct Tablet {
    prefix_path: String,
    measurement_schemas: Vec<MeasurementSchema>,
    timestamps: Vec<i64>,
    columns: Vec<Vec<Value>>,
}

/// `perm` reorders the rows of `pre` into `post`: it is a bijection on the
/// row indices, and the timestamp array and every column array of `post`
/// are the same single reordering of `pre`'s, so each row keeps its values
/// with its timestamp.
pub open spec fn spec_is_row_permutation(perm: Seq<int>, pre: Tablet, post: Tablet) -> bool {
    &&& perm.len() == pre.spec_timestamps().len()
    &&& forall|k: int| 0 <= k < perm.len() ==> 0 <= #[trigger] perm[k] < perm.len()
    &&& forall|k1: int, k2: int|
        #![trigger perm[k1], perm[k2]]
        0 <= k1 < k2 < perm.len() ==> perm[k1] != perm[k2]
    &&& post.spec_timestamps().len() == perm.len()
    &&& forall|k: int|
        0 <= k < perm.len() ==> #[trigger] post.spec_timestamps()[k]
            == pre.spec_timestamps()[perm[k]]
    &&& post.spec_columns().len() == pre.spec_columns().len()
    &&& forall|c: int, k: int|
        #![trigger post.spec_columns()[c][k]]
        0 <= c < post.spec_columns().len() && 0 <= k < perm.len() ==> post.spec_columns()[c][k]
            == pre.spec_columns()[c][perm[k]]
}

/// `perm` keeps the source order of rows whose timestamps tie: a stable
/// reordering.
pub open spec fn spec_stable_for(perm: Seq<int>, ts: Seq<i64>) -> bool {
    forall|k1: int, k2: int|
        #![trigger perm[k1], perm[k2]]
        0 <= k1 < k2 < perm.len() && 0 <= perm[k1] < ts.len() && 0 <= perm[k2] < ts.len()
            && ts[perm[k1]] == ts[perm[k2]] ==> perm[k1] < perm[k2]
}

impl Tablet {
    /// The device path prefix this batch writes under.
    pub closed spec fn spec_prefix_path(&self) -> Seq<char> {
        self.prefix_path@
    }

    /// The declared column schemas, in column order.
    pub closed spec fn spec_schemas(&self) -> Seq<MeasurementSchema> {
        self.measurement_schemas@
    }

    /// The per-row timestamps, in row order.
    pub closed spec fn spec_timestamps(&self) -> Seq<i64> {
        self.timestamps@
    }

    /// The column arrays, one per schema, each in row order.
    pub closed spec fn spec_columns(&self) -> Seq<Seq<ValueV>> {
        self.columns@.map_values(|col: Vec<Value>| spec_col_view(col@))
    }

    /// The index-synchronization invariant: one column per schema, every
    /// column exactly as long as the timestamp array, and every stored
    /// value a well-formed non-null scalar.
    pub open spec fn wf(&self) -> bool {
        &&& self.spec_columns().len() == self.spec_schemas().len()
        &&& forall|c: int|
            0 <= c < self.spec_columns().len() ==> (#[trigger] self.spec_columns()[c]).len()
                == self.spec_timestamps().len()
        &&& forall|c: int, k: int|
            #![trigger self.spec_columns()[c][k]]
            0 <= c < self.spec_columns().len() && 0 <= k < self.spec_timestamps().len() ==> {
                &&& !(self.spec_columns()[c][k] is Null)
                &&& spec_value_wf(self.spec_columns()[c][k])
            }
    }

    /// An empty batch for `prefix_path` with one empty column per schema.
    pub fn new(prefix_path: &str, measurement_schemas: Vec<MeasurementSchema>) -> (r: Self)
        ensures
            r.wf(),
            r.spec_prefix_path() == prefix_path@,
            r.spec_schemas() == measurement_schemas@,
            r.spec_timestamps().len() == 0,
            r.spec_columns().len() == measurement_schemas@.len(),
    {
        let n = measurement_schemas.len();
        let mut columns: Vec<Vec<Value>> = Vec::new();
        let mut i: usize = 0;
        while i < n
            invariant
                i <= n,
                columns@.len() == i,
                forall|j: int| 0 <= j < i ==> (#[trigger] columns@[j])@.len() == 0,
            decreases n - i,
        {
            columns.push(Vec::new());
            i = i + 1;
        }
        let r = Self {
            prefix_path: prefix_path.to_owned(),
            timestamps: Vec::new(),
            columns,
            measurement_schemas,
        };
        proof {
            assert forall|c: int| 0 <= c < r.spec_columns().len() implies (
            #[trigger] r.spec_columns()[c]).len() == r.spec_timestamps().len() by {
                assert(r.spec_columns()[c] == spec_col_view(r.columns@[c]@));
            }
        }
        r
    }

    /// The declared column schemas, copied.
    pub fn get_measurement_schemas(&self) -> (r: Vec<MeasurementSchema>)
        ensures
            r@.len() == self.spec_schemas().len(),
            forall|i: int|
                0 <= i < r@.len() ==> spec_schema_like(
                    #[trigger] r@[i],
                    self.spec_schemas()[i],
                ),
    {
        let n = self.measurement_schemas.len();
        let mut r: Vec<MeasurementSchema> = Vec::new();
        let mut i: usize = 0;
        while i < n
            invariant
                i <= n,
                n == self.measurement_schemas@.len(),
                r@.len() == i,
                forall|j: int|
                    0 <= j < i ==> spec_schema_like(
                        #[trigger] r@[j],
                        self.measurement_schemas@[j],
                    ),
            decreases n - i,
        {
            r.push(self.measurement_schemas[i].duplicate());
            i = i + 1;
        }
        r
    }

    /// The device path prefix.
    pub fn get_prefix_path(&self) -> (r: String)
        ensures
            r@ == self.spec_prefix_path(),
    {
        self.prefix_path.clone()
    }

    /// How many rows the batch holds.
    pub fn get_row_count(&self) -> (r: usize)
        ensures
            r == self.spec_timestamps().len(),
    {
        self.timestamps.len()
    }

    /// How many columns the batch holds.
    pub fn get_column_count(&self) -> (r: usize)
        ensures
            r == self.spec_columns().len(),
    {
        self.columns.len()
    }

    /// The timestamp of row `row_index`.
    pub fn get_timestamps_at(&self, row_index: usize) -> (r: i64)
        requires
            row_index < self.spec_timestamps().len(),
        ensures
            r == self.spec_timestamps()[row_index as int],
    {
        self.timestamps[row_index]
    }

    /// The value stored at column `colum_index`, row `row_index`.
    pub fn get_value_at(&self, colum_index: usize, row_index: usize) -> (r: Value)
        requires
            self.wf(),
            colum_index < self.spec_columns().len(),
            row_index < self.spec_timestamps().len(),
        ensures
            r@ == self.spec_columns()[colum_index as int][row_index as int],
    {
        let col = &self.columns[colum_index];
        proof {
            assert(self.spec_columns()[colum_index as int] == spec_col_view(col@));
        }
        col[row_index].duplicate()
    }

    /// Append one row. Fails with `SchemaMismatch` when the value count
    /// differs from the column count and with `NullNotSupported` when any
    /// value is `Null`; on failure the batch is unchanged. On success the
    /// timestamp array and every column grow by exactly that row, at the
    /// same index.
    pub fn add_row(&mut self, row: Vec<Value>, timestamp: i64) -> (r: Result<(), ClientError>)
        requires
            old(self).wf(),
            forall|i: int| 0 <= i < row@.len() ==> spec_value_wf(#[trigger] row@[i]@),
        ensures
            match r {
                Ok(()) => {
                    &&& row@.len() == old(self).spec_columns().len()
                    &&& forall|i: int| 0 <= i < row@.len() ==> !((#[trigger] row@[i]@) is Null)
                    &&& final(self).wf()
                    &&& final(self).spec_prefix_path() == old(self).spec_prefix_path()
                    &&& final(self).spec_schemas() == old(self).spec_schemas()
                    &&& final(self).spec_timestamps() == old(self).spec_timestamps().push(
                        timestamp,
                    )
                    &&& final(self).spec_columns().len() == old(self).spec_columns().len()
                    &&& forall|c: int|
                        0 <= c < row@.len() ==> (#[trigger] final(self).spec_columns()[c]) == old(
                            self,
                        ).spec_columns()[c].push(row@[c]@)
                },
                Err(ClientError::SchemaMismatch) => {
                    &&& row@.len() != old(self).spec_columns().len()
                    &&& *final(self) == *old(self)
                },
                Err(ClientError::NullNotSupported) => {
                    &&& row@.len() == old(self).spec_columns().len()
                    &&& exists|i: int| 0 <= i < row@.len() && (#[trigger] row@[i]@) is Null
                    &&& *final(self) == *old(self)
                },
                Err(_) => false,
            },
    {
        let n = self.columns.len();
        if row.len() != n {
            return Err(ClientError::SchemaMismatch);
        }
        let mut i: usize = 0;
        while i < n
            invariant
                i <= n,
                n == row@.len(),
                *self == *old(self),
                n == old(self).spec_columns().len(),
                forall|j: int| 0 <= j < i ==> !((#[trigger] row@[j]@) is Null),
            decreases n - i,
        {
            if row[i].is_null() {
                proof {
                    assert(0 <= i < row@.len() && (row@[i as int]@) is Null);
                    assert(row@.len() == old(self).spec_columns().len());
                }
                return Err(ClientError::NullNotSupported);
            }
            i = i + 1;
        }
        self.timestamps.push(timestamp);
        let mut c: usize = 0;
        while c < n
            invariant
                c <= n,
                n == row@.len(),
                n == self.columns@.len(),
                n == old(self).columns@.len(),
                self.prefix_path == old(self).prefix_path,
                self.measurement_schemas == old(self).measurement_schemas,
                self.timestamps@ == old(self).timestamps@.push(timestamp),
                forall|j: int|
                    0 <= j < c ==> (#[trigger] spec_col_view(self.columns@[j]@)) == spec_col_view(
                        old(self).columns@[j]@,
                    ).push(row@[j]@),
                forall|j: int| c <= j < n ==> (#[trigger] self.columns@[j]) == old(self).columns@[j],
            decreases n - c,
        {
            let v = row[c].duplicate();
            proof {
                assert(self.columns@[c as int] == old(self).columns@[c as int]);
            }
            self.columns[c].push(v);
            proof {
                assert(spec_col_view(self.columns@[c as int]@) =~= spec_col_view(
                    old(self).columns@[c as int]@,
                ).push(row@[c as int]@));
            }
            c = c + 1;
        }
        proof {
            let post = *self;
            let pre = *old(self);
            assert forall|j: int| 0 <= j < n implies (#[trigger] post.spec_columns()[j])
                == pre.spec_columns()[j].push(row@[j]@) by {
                assert(post.spec_columns()[j] == spec_col_view(post.columns@[j]@));
                assert(pre.spec_columns()[j] == spec_col_view(pre.columns@[j]@));
            }
            assert(post.wf()) by {
                assert forall|cc: int, k: int|
                    0 <= cc < post.spec_columns().len() && 0 <= k
                        < post.spec_timestamps().len() implies {
                    &&& !((#[trigger] post.spec_columns()[cc][k]) is Null)
                    &&& spec_value_wf(post.spec_columns()[cc][k])
                } by {
                    if k < pre.spec_timestamps().len() {
                        assert(post.spec_columns()[cc][k] == pre.spec_columns()[cc][k]);
                    } else {
                        assert(post.spec_columns()[cc][k] == row@[cc]@);
                    }
                }
            }
        }
        Ok(())
    }

    /// Reorder the rows by non-decreasing timestamp, stably: one sorting
    /// permutation, computed from the timestamps, is applied to the
    /// timestamp array and to every column array, so rows keep their
    /// values and equal timestamps keep their insertion order.
    pub fn sort(&mut self)
        requires
            old(self).wf(),
        ensures
            final(self).wf(),
            final(self).spec_prefix_path() == old(self).spec_prefix_path(),
            final(self).spec_schemas() == old(self).spec_schemas(),
            spec_non_decreasing(final(self).spec_timestamps()),
            exists|perm: Seq<int>|
                {
                    &&& #[trigger] spec_is_row_permutation(perm, *old(self), *final(self))
                    &&& spec_stable_for(perm, old(self).spec_timestamps())
                },
    {
        let nrows = self.timestamps.len();
        let p = sort_perm(&self.timestamps);
        let ghost idx = perm_indices(p);
        let sorted_ts = apply_perm_i64(&p, &self.timestamps);
        self.timestamps = sorted_ts;
        let ghost ts_sorted = self.timestamps@;
        proof {
            assert forall|k: int| 0 <= k < nrows implies #[trigger] ts_sorted[k] == old(
                self,
            ).timestamps@[idx[k] as int] by {
                assert(sorted_ts@[k]@ == old(self).timestamps@[idx[k] as int]@);
            }
        }
        let ncols = self.columns.len();
        let mut c: usize = 0;
        while c < ncols
            invariant
                c <= ncols,
                ncols == self.columns@.len(),
                ncols == old(self).columns@.len(),
                idx == perm_indices(p),
                idx.len() == nrows,
                nrows == old(self).timestamps@.len(),
                forall|k: int| 0 <= k < nrows ==> (#[trigger] idx[k]) < nrows,
                old(self).wf(),
                self.prefix_path == old(self).prefix_path,
                self.measurement_schemas == old(self).measurement_schemas,
                self.timestamps@ == ts_sorted,
                ts_sorted.len() == nrows,
                forall|k: int|
                    0 <= k < nrows ==> #[trigger] ts_sorted[k] == old(self).timestamps@[idx[k] as int],
                forall|j: int|
                    0 <= j < c ==> {
                        &&& (#[trigger] self.columns@[j])@.len() == nrows
                        &&& forall|k: int|
                            0 <= k < nrows ==> (#[trigger] self.columns@[j]@[k]@) == old(
                                self,
                            ).columns@[j]@[idx[k] as int]@
                    },
                forall|j: int|
                    c <= j < ncols ==> (#[trigger] self.columns@[j]) == old(self).columns@[j],
            decreases ncols - c,
        {
            proof {
                assert(self.columns@[c as int] == old(self).columns@[c as int]);
                assert(old(self).spec_columns()[c as int] == spec_col_view(
                    old(self).columns@[c as int]@,
                ));
                assert(old(self).spec_columns()[c as int].len() == nrows);
                assert(old(self).columns@[c as int]@.len() == nrows);
            }
            let newcol = apply_perm_values(&p, &self.columns[c]);
            proof {
                assert forall|k: int| 0 <= k < nrows implies #[trigger] newcol@[k]@ == old(
                    self,
                ).columns@[c as int]@[idx[k] as int]@ by {}
            }
            self.columns[c] = newcol;
            c = c + 1;
        }
        proof {
            let pre = *old(self);
            let post = *self;
            let perm_int = Seq::new(idx.len(), |k: int| idx[k] as int);
            assert forall|k: int| 0 <= k < perm_int.len() implies #[trigger] post.spec_timestamps()[k]
                == pre.spec_timestamps()[perm_int[k]] by {}
            assert forall|cc: int, k: int|
                #![trigger post.spec_columns()[cc][k]]
                0 <= cc < post.spec_columns().len() && 0 <= k
                    < perm_int.len() implies post.spec_columns()[cc][k]
                == pre.spec_columns()[cc][perm_int[k]] by {
                assert(post.spec_columns()[cc] == spec_col_view(post.columns@[cc]@));
                assert(pre.spec_columns()[cc] == spec_col_view(pre.columns@[cc]@));
            }
            assert(spec_is_row_permutation(perm_int, pre, post));
            assert(spec_stable_for(perm_int, pre.spec_timestamps()));
            assert(post.wf()) by {
                assert forall|cc: int, k: int|
                    #![trigger post.spec_columns()[cc][k]]
                    0 <= cc < post.spec_columns().len() && 0 <= k
                        < post.spec_timestamps().len() implies {
                    &&& !(post.spec_columns()[cc][k] is Null)
                    &&& spec_value_wf(post.spec_columns()[cc][k])
                } by {
                    assert(post.spec_columns()[cc][k] == pre.spec_columns()[cc][perm_int[k]]);
                }
            }
            assert(spec_non_decreasing(post.spec_timestamps()));
        }
    }

    /// The flat value buffer of the write operation: for each column in
    /// schema order, each value's wire payload in row order, type tags
    /// stripped. Column-major.
    pub fn to_wire_value_buffer(&self) -> (r: Vec<u8>)
        requires
            self.wf(),
        ensures
            r@ == spec_tablet_wire(self.spec_columns()),
    {
        let mut buf: Vec<u8> = Vec::new();
        let ncols = self.columns.len();
        let mut c: usize = 0;
        while c < ncols
            invariant
                c <= ncols,
                ncols == self.columns@.len(),
                self.wf(),
                buf@ == spec_tablet_wire(self.spec_columns().take(c as int)),
            decreases ncols - c,
        {
            let col = &self.columns[c];
            proof {
                assert(self.spec_columns()[c as int] == spec_col_view(col@));
            }
            let ghost colv = spec_col_view(col@);
            let ghost pre_buf = buf@;
            let nrows = col.len();
            let mut j: usize = 0;
            while j < nrows
                invariant
                    j <= nrows,
                    nrows == col@.len(),
                    colv == spec_col_view(col@),
                    colv.len() == nrows,
                    self.wf(),
                    c < self.columns@.len(),
                    col == &self.columns@[c as int],
                    colv == self.spec_columns()[c as int],
                    buf@ == pre_buf + spec_column_wire(colv.take(j as int)),
                decreases nrows - j,
            {
                proof {
                    assert(colv[j as int] == col@[j as int]@);
                    assert(!(colv[j as int] is Null) && spec_value_wf(colv[j as int]));
                }
                let mut value_data = col[j].encode();
                proof {
                    assert(spec_encode(col@[j as int]@).len() >= 1);
                }
                value_data.remove(0);
                proof {
                    assert(value_data@ =~= spec_value_payload(colv[j as int]));
                }
                buf.append(&mut value_data);
                proof {
                    assert(colv.take(j + 1).drop_last() =~= colv.take(j as int));
                    assert(colv.take(j + 1).last() == colv[j as int]);
                    assert(buf@ == pre_buf + spec_column_wire(colv.take(j + 1)));
                }
                j = j + 1;
            }
            proof {
                assert(colv.take(nrows as int) =~= colv);
                let cols = self.spec_columns();
                assert(cols.take(c + 1).drop_last() =~= cols.take(c as int));
                assert(cols.take(c + 1).last() == cols[c as int]);
                assert(buf@ == spec_tablet_wire(cols.take(c + 1)));
            }
            c = c + 1;
        }
        proof {
            assert(self.spec_columns().take(ncols as int) =~= self.spec_columns());
        }
        buf
    }

    /// The flat timestamp buffer of the write operation: each row's
    /// timestamp as eight big-endian bytes, in row order.
    pub fn to_wire_timestamp_buffer(&self) -> (r: Vec<u8>)
        ensures
            r@ == spec_timestamps_wire(self.spec_timestamps()),
    {
        let mut buf: Vec<u8> = Vec::new();
        let n = self.timestamps.len();
        let mut i: usize = 0;
        while i < n
            invariant
                i <= n,
                n == self.timestamps@.len(),
                buf@ == spec_timestamps_wire(self.timestamps@.take(i as int)),
            decreases n - i,
        {
            let word = i64_to_u64(self.timestamps[i]);
            push_u64_be(&mut buf, word);
            proof {
                let ts = self.timestamps@;
                assert(ts.take(i + 1).drop_last() =~= ts.take(i as int));
                assert(ts.take(i + 1).last() == ts[i as int]);
            }
            i = i + 1;
        }
        proof {
            assert(self.timestamps@.take(n as int) =~= self.timestamps@);
        }
        buf
    }
}

} // verus!
