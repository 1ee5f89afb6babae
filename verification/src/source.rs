//! `Source`: the AST leaf that introduces a relation.
use vstd::prelude::*;

use crate::identifier::TableName;
use crate::infer::{lemma_row_matches_ok, row_fits, same_rows, row_matches_schema, row_matches_spec, ValueTypeError};
use crate::schema::AttrV;
use crate::limits::MAX_ROWS_IN_AST;
use crate::refine::CollectionError;
use crate::row::Row;
use crate::schema::Schema;

verus! {

/// Length-bounded list of rows: 0..=`MAX_ROWS_IN_AST`.
#[derive(Debug, PartialEq)]
pub struct Rows {
    pub(crate) rows: Vec<Row>,
}

/// Constructor error for `Rows`.
pub type RowsError = CollectionError;

impl View for Rows {
    type V = Seq<Row>;

    closed spec fn view(&self) -> Seq<Row> {
        self.rows@
    }
}

/// The view of `Rows` is its row vector's view.
pub(crate) proof fn lemma_rows_view(rows: Rows)
    ensures
        rows@ == rows.rows@,
{
}

impl Rows {
    #[verifier::type_invariant]
    pub(crate) open spec fn inv(self) -> bool {
        self.rows@.len() <= MAX_ROWS_IN_AST
    }

    /// Validate the row count and wrap; `LenOutOfRange` iff there are
    /// more than `MAX_ROWS_IN_AST` rows.
    pub fn try_new(rows: Vec<Row>) -> (r: Result<Self, RowsError>)
        ensures
            match r {
                Ok(rs) => rows@.len() <= MAX_ROWS_IN_AST && rs@ == rows@,
                Err(CollectionError::LenOutOfRange { actual }) => actual == rows@.len()
                    && rows@.len() > MAX_ROWS_IN_AST,
                Err(CollectionError::DuplicateKey { .. }) => false,
            },
    {
        if rows.len() > MAX_ROWS_IN_AST {
            return Err(CollectionError::LenOutOfRange { actual: rows.len() });
        }
        Ok(Rows { rows })
    }

    /// Borrow the row list.
    pub fn as_inner(&self) -> (r: &Vec<Row>)
        ensures
            r@ == self@,
    {
        &self.rows
    }

    /// Borrow the rows.
    pub fn as_slice(&self) -> (r: &[Row])
        ensures
            r@ == self@,
    {
        self.rows.as_slice()
    }

    /// Number of rows.
    pub fn len(&self) -> (r: usize)
        ensures
            r == self@.len(),
            r <= MAX_ROWS_IN_AST,
    {
        proof {
            use_type_invariant(self);
        }
        self.rows.len()
    }

    /// `true` iff there are no rows.
    pub fn is_empty(&self) -> (r: bool)
        ensures
            r == (self@.len() == 0),
    {
        self.rows.len() == 0
    }

    /// Consume the wrapper and return the inner rows.
    pub fn into_inner(self) -> (r: Vec<Row>)
        ensures
            r@ == self@,
    {
        self.rows
    }
}

/// Inline data with its schema, proved to match by construction.
#[derive(Debug, PartialEq)]
pub struct MemorySource {
    schema: Schema,
    rows: Rows,
}

/// Constructor error for `MemorySource`.
#[derive(Debug, PartialEq, Eq)]
#[non_exhaustive]
pub enum MemorySourceError {
    /// The row count exceeded `MAX_ROWS_IN_AST`.
    Rows(CollectionError),
    /// A row failed to match the schema.
    RowMismatch {
        /// Position of the offending row in the input list.
        row_index: usize,
        /// The structural failure inside that row.
        source: ValueTypeError,
    },
}

/// The rows from position `i` on, each against `s`: the first row
/// that does not match is reported.
pub open spec fn rows_match_from(rows: Seq<Row>, s: Seq<AttrV>, i: int) -> Result<(), MemorySourceError>
    decreases rows.len() - i,
{
    if i < 0 || i >= rows.len() {
        Ok(())
    } else {
        match row_matches_spec(rows[i], s) {
            Err(e) => Err(MemorySourceError::RowMismatch { row_index: i as usize, source: e }),
            Ok(_) => rows_match_from(rows, s, i + 1),
        }
    }
}

/// Every row fits `s` (see `row_fits`).
pub open spec fn rows_fit(rows: Seq<Row>, s: Seq<AttrV>) -> bool {
    forall|i: int| 0 <= i < rows.len() ==> #[trigger] row_fits(rows[i], s)
}

proof fn lemma_rows_match_ok(rows: Seq<Row>, s: Seq<AttrV>, i: int)
    requires
        0 <= i <= rows.len(),
    ensures
        rows_match_from(rows, s, i) is Ok <==> forall|j: int|
            i <= j < rows.len() ==> #[trigger] row_matches_spec(rows[j], s) is Ok,
    decreases rows.len() - i,
{
    if i < rows.len() {
        lemma_rows_match_ok(rows, s, i + 1);
    }
}

/// `memory_result` accepts exactly the row lists within the row bound
/// whose every row fits the schema.
pub proof fn lemma_memory_result_ok(s: Seq<AttrV>, rows: Seq<Row>)
    ensures
        memory_result(s, rows) is Ok <==> rows.len() <= MAX_ROWS_IN_AST && rows_fit(rows, s),
{
    lemma_rows_match_ok(rows, s, 0);
    assert forall|j: int| 0 <= j < rows.len() implies (#[trigger] row_matches_spec(rows[j], s) is Ok
        <==> row_fits(rows[j], s)) by {
        lemma_row_matches_ok(rows[j], s);
    }
    if rows_fit(rows, s) {
        assert forall|j: int| 0 <= j < rows.len() implies #[trigger] row_matches_spec(rows[j], s) is Ok by {
            assert(row_fits(rows[j], s));
        }
    }
    if rows_match_from(rows, s, 0) is Ok {
        assert forall|j: int| 0 <= j < rows.len() implies #[trigger] row_fits(rows[j], s) by {
            assert(row_matches_spec(rows[j], s) is Ok);
        }
    }
}

/// What `MemorySource::try_new` makes of a schema view and raw rows:
/// every row is checked in order first, then the row count.
pub open spec fn memory_result(s: Seq<AttrV>, rows: Seq<Row>) -> Result<(), MemorySourceError> {
    match rows_match_from(rows, s, 0) {
        Err(e) => Err(e),
        Ok(_) => if rows.len() > MAX_ROWS_IN_AST {
            Err(MemorySourceError::Rows(CollectionError::LenOutOfRange { actual: rows.len() as usize }))
        } else {
            Ok(())
        },
    }
}

/// Row lists that match the same schemas position by position give
/// the same outcome from position `i` on.
proof fn lemma_rows_match_congruent(a: Seq<Row>, b: Seq<Row>, s: Seq<AttrV>, i: int)
    requires
        a.len() == b.len(),
        forall|j: int, u: Seq<AttrV>|
            0 <= j < a.len() ==> #[trigger] row_matches_spec(a[j], u) == row_matches_spec(b[j], u),
    ensures
        rows_match_from(a, s, i) == rows_match_from(b, s, i),
    decreases a.len() - i,
{
    if 0 <= i < a.len() {
        assert(row_matches_spec(a[i], s) == row_matches_spec(b[i], s));
        lemma_rows_match_congruent(a, b, s, i + 1);
    }
}

impl Clone for MemorySource {
    /// A copy with the same schema view and the same number of rows.
    fn clone(&self) -> (r: Self)
        ensures
            r.spec_schema()@ == self.spec_schema()@,
            r.spec_rows().len() == self.spec_rows().len(),
            same_rows(r.spec_rows(), self.spec_rows()),
    {
        proof {
            use_type_invariant(self);
        }
        let schema = self.schema.clone();
        let rows = self.rows.clone();
        proof {
            lemma_rows_match_congruent(rows@, self.rows@, schema@, 0);
        }
        MemorySource { schema, rows }
    }
}

impl MemorySource {
    #[verifier::type_invariant]
    spec fn inv(self) -> bool {
        memory_result(self.schema@, self.rows@) is Ok
    }

    /// The carried schema.
    pub closed spec fn spec_schema(&self) -> Schema {
        self.schema
    }

    /// The carried rows.
    pub closed spec fn spec_rows(&self) -> Seq<Row> {
        self.rows@
    }

    /// Validate `raw_rows` against `schema` and wrap: `RowMismatch`
    /// for the first row that does not conform (width or per-position
    /// type), then `Rows` if there are too many rows.
    pub fn try_new(schema: Schema, raw_rows: Vec<Row>) -> (r: Result<Self, MemorySourceError>)
        ensures
            match r {
                Ok(m) => memory_result(schema@, raw_rows@) is Ok && m.spec_schema() == schema
                    && m.spec_rows() == raw_rows@,
                Err(e) => memory_result(schema@, raw_rows@) == Err::<(), MemorySourceError>(e),
            },
            r is Ok <==> raw_rows@.len() <= MAX_ROWS_IN_AST && rows_fit(raw_rows@, schema@),
    {
        proof {
            lemma_memory_result_ok(schema@, raw_rows@);
        }
        let n = raw_rows.len();
        let mut row_index: usize = 0;
        while row_index < n
            invariant
                n == raw_rows@.len(),
                row_index <= n,
                memory_result(schema@, raw_rows@) is Ok <==> raw_rows@.len() <= MAX_ROWS_IN_AST
                    && rows_fit(raw_rows@, schema@),
                rows_match_from(raw_rows@, schema@, 0) == rows_match_from(
                    raw_rows@,
                    schema@,
                    row_index as int,
                ),
            decreases n - row_index,
        {
            match row_matches_schema(&raw_rows[row_index], &schema) {
                Err(source) => {
                    return Err(MemorySourceError::RowMismatch { row_index, source });
                },
                Ok(_) => {},
            }
            row_index = row_index + 1;
        }
        let rows = match Rows::try_new(raw_rows) {
            Ok(rows) => rows,
            Err(e) => {
                return Err(MemorySourceError::Rows(e));
            },
        };
        Ok(MemorySource { schema, rows })
    }

    /// Borrow the header.
    pub fn schema(&self) -> (r: &Schema)
        ensures
            *r == self.spec_schema(),
    {
        &self.schema
    }

    /// Borrow the validated rows.
    pub fn rows(&self) -> (r: &Rows)
        ensures
            r@ == self.spec_rows(),
            memory_result(self.spec_schema()@, r@) is Ok,
            rows_fit(r@, self.spec_schema()@),
    {
        proof {
            use_type_invariant(self);
            lemma_memory_result_ok(self.schema@, self.rows@);
        }
        &self.rows
    }
}

/// AST leaf introducing a relation.
#[derive(Debug, PartialEq)]
#[non_exhaustive]
pub enum Source {
    /// Inline data whose rows match the carried schema.
    Memory(MemorySource),
    /// Symbolic reference to a named external table.
    Table {
        /// Header of the external table.
        schema: Schema,
        /// Identifier the backend uses to look the table up.
        name: TableName,
    },
}

impl Source {
    /// The header of the rows this source produces.
    pub open spec fn spec_schema(&self) -> Schema {
        match self {
            Source::Memory(m) => m.spec_schema(),
            Source::Table { schema, .. } => *schema,
        }
    }

    /// Build a `Source::Memory` from raw pieces, as
    /// `MemorySource::try_new` does.
    pub fn try_memory(schema: Schema, raw_rows: Vec<Row>) -> (r: Result<Self, MemorySourceError>)
        ensures
            match r {
                Ok(Source::Memory(m)) => memory_result(schema@, raw_rows@) is Ok
                    && m.spec_schema() == schema && m.spec_rows() == raw_rows@,
                Ok(_) => false,
                Err(e) => memory_result(schema@, raw_rows@) == Err::<(), MemorySourceError>(e),
            },
            r is Ok <==> raw_rows@.len() <= MAX_ROWS_IN_AST && rows_fit(raw_rows@, schema@),
    {
        match MemorySource::try_new(schema, raw_rows) {
            Ok(m) => Ok(Source::Memory(m)),
            Err(e) => Err(e),
        }
    }

    /// Borrow the header that describes the rows this source produces.
    pub fn schema(&self) -> (r: &Schema)
        ensures
            *r == self.spec_schema(),
    {
        match self {
            Source::Memory(memory) => memory.schema(),
            Source::Table { schema, .. } => schema,
        }
    }
}

/// `a` and `b` are the same source: memory sources with equal schema
/// views holding the same rows (see `same_rows`), or the same table
/// with equal schema views.
pub open spec fn same_source(a: Source, b: Source) -> bool {
    match (a, b) {
        (Source::Memory(x), Source::Memory(y)) => x.spec_schema()@ == y.spec_schema()@ && same_rows(
            x.spec_rows(),
            y.spec_rows(),
        ),
        (Source::Table { schema: s1, name: n1 }, Source::Table { schema: s2, name: n2 }) => s1@
            == s2@ && n1 == n2,
        _ => false,
    }
}

impl Clone for Source {
    fn clone(&self) -> (r: Self)
        ensures
            same_source(r, *self),
    {
        match self {
            Source::Memory(m) => Source::Memory(m.clone()),
            Source::Table { schema, name } => Source::Table { schema: schema.clone(), name: name.clone() },
        }
    }
}

} // verus!
