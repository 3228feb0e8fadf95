//! Tagged database values and the row-to-column pivot.

use vstd::prelude::*;

use crate::error::PqError;

verus! {

/// A legacy `datetime` payload: days since 1900-01-01 and 1/300-second
/// ticks since midnight.
#[derive(Clone, Copy, Debug, PartialEq, Eq, Structural)]
pub struct DateTimeValue {
    pub days: i32,
    pub ticks: u32,
}

/// A `datetime2` payload: days since 0001-01-01 and sub-second increments
/// of `10^(9-scale)` nanoseconds each since midnight.
#[derive(Clone, Copy, Debug, PartialEq, Eq, Structural)]
pub struct DateTime2Value {
    pub days: u32,
    pub increments: u64,
    pub scale: u8,
}

/// A `time` payload: increments of `10^(9-scale)` nanoseconds since
/// midnight.
#[derive(Clone, Copy, Debug, PartialEq, Eq, Structural)]
pub struct TimeValue {
    pub increments: u64,
    pub scale: u8,
}

/// A decimal payload: a signed mantissa already scaled to the column's
/// scale.
#[derive(Clone, Copy, Debug, PartialEq, Eq, Structural)]
pub struct NumericValue {
    pub mantissa: i128,
    pub scale: u8,
}

/// One database value with its runtime type tag; every variant carries its
/// own null marker. Floating-point payloads travel as IEEE-754 bit
/// patterns: the core never computes on them.
#[derive(Debug)]
pub enum TaggedValue {
    U8(Option<u8>),
    I16(Option<i16>),
    I32(Option<i32>),
    I64(Option<i64>),
    F32(Option<u32>),
    F64(Option<u64>),
    Bit(Option<bool>),
    Utf8(Option<String>),
    Xml(Option<String>),
    Binary(Option<Vec<u8>>),
    Date(Option<u32>),
    DateTime(Option<DateTimeValue>),
    DateTime2(Option<DateTime2Value>),
    Time(Option<TimeValue>),
    Numeric(Option<NumericValue>),
}

/// The row-to-column pivot: one buffer per column, all of the same length,
/// position `i` of each buffer holding row `i`'s value for that column.
pub struct RowBuffer {
    cols: Vec<Vec<TaggedValue>>,
    rows: usize,
}

impl View for RowBuffer {
    type V = Seq<Seq<TaggedValue>>;

    closed spec fn view(&self) -> Seq<Seq<TaggedValue>> {
        self.cols@.map_values(|c: Vec<TaggedValue>| c@)
    }
}

impl RowBuffer {
    /// The number of rows taken in.
    pub closed spec fn spec_rows(&self) -> nat {
        self.rows as nat
    }

    /// Every column buffer holds exactly one value per row taken in.
    pub open spec fn wf(&self) -> bool {
        forall|k: int| 0 <= k < self@.len() ==> (#[trigger] self@[k]).len() == self.spec_rows()
    }

    /// An empty pivot for the given column count.
    pub fn new(ncols: usize) -> (r: Self)
        ensures
            r@.len() == ncols,
            r.spec_rows() == 0,
            r.wf(),
    {
        let mut cols: Vec<Vec<TaggedValue>> = Vec::new();
        let mut k: usize = 0;
        while k < ncols
            invariant
                k <= ncols,
                cols@.len() == k,
                forall|j: int| 0 <= j < k ==> (#[trigger] cols@[j])@.len() == 0,
            decreases ncols - k,
        {
            cols.push(Vec::new());
            k = k + 1;
        }
        RowBuffer { cols, rows: 0 }
    }

    /// The column count.
    pub fn num_cols(&self) -> (r: usize)
        ensures
            r == self@.len(),
    {
        self.cols.len()
    }

    /// The row count.
    pub fn num_rows(&self) -> (r: usize)
        ensures
            r == self.spec_rows(),
    {
        self.rows
    }

    /// Borrows one column buffer.
    pub fn col(&self, k: usize) -> (r: &Vec<TaggedValue>)
        requires
            k < self@.len(),
        ensures
            r@ == self@[k as int],
    {
        &self.cols[k]
    }

    /// Appends one row, its `k`-th field going to the `k`-th column buffer.
    /// A row of the wrong width is rejected whole.
    pub fn push_row(&mut self, row: Vec<TaggedValue>) -> (r: Result<(), PqError>)
        requires
            old(self).wf(),
            old(self).spec_rows() < usize::MAX,
        ensures
            match r {
                Ok(()) => {
                    &&& row@.len() == old(self)@.len()
                    &&& (*final(self)).wf()
                    &&& (*final(self))@.len() == old(self)@.len()
                    &&& (*final(self)).spec_rows() == old(self).spec_rows() + 1
                    &&& forall|k: int|
                        0 <= k < old(self)@.len() ==> (*final(self))@[k] == old(self)@[k].push(
                            row@[k],
                        )
                },
                Err(e) => {
                    &&& row@.len() != old(self)@.len()
                    &&& e matches PqError::SchemaMismatch { expected, actual } && expected == old(
                        self,
                    )@.len() && actual == row@.len()
                    &&& *final(self) == *old(self)
                },
            },
    {
        let ncols = self.cols.len();
        if row.len() != ncols {
            return Err(
                PqError::SchemaMismatch { expected: ncols, actual: row.len() },
            );
        }
        let mut row = row;
        let ghost row0 = row@;
        let mut k: usize = ncols;
        while k > 0
            invariant
                k <= ncols == self.cols@.len(),
                self.rows == old(self).rows,
                old(self).wf(),
                old(self)@.len() == ncols,
                row@ == row0.take(k as int),
                row0.len() == ncols,
                forall|j: int|
                    0 <= j < k ==> (#[trigger] self.cols@[j])@ == old(self).cols_at(j),
                forall|j: int|
                    k <= j < ncols ==> (#[trigger] self.cols@[j])@ == old(self).cols_at(j).push(
                        row0[j],
                    ),
            decreases k,
        {
            k = k - 1;
            let v = row.pop().unwrap();
            proof {
                assert(row0.take(k + 1).last() == row0[k as int]);
                assert(row0.take(k + 1).drop_last() =~= row0.take(k as int));
            }
            self.cols[k].push(v);
        }
        self.rows = self.rows + 1;
        proof {
            assert forall|j: int| 0 <= j < old(self)@.len() implies self@[j] == old(
                self,
            )@[j].push(row0[j]) by {
                assert(self.cols@[j]@ == old(self).cols_at(j).push(row0[j]));
            }
            assert(self.wf());
        }
        Ok(())
    }

    /// The `k`-th column buffer's contents, at the specification level.
    pub closed spec fn cols_at(&self, k: int) -> Seq<TaggedValue> {
        self.cols@[k]@
    }
}

} // verus!
