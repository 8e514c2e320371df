//! Tables read from delimited text, and what is asked of them.

use crate::columns::contains_name;
use crate::columns::desired_columns;
use crate::columns::desired_names;
use crate::columns::expected_names;
use crate::columns::expected_schema;
use crate::columns::lemma_desired_names_lead_expected;
use crate::columns::ColumnSet;
use crate::schema::lemma_report_membership;
use crate::schema::missing_columns;
use crate::schema::validate_header;
use crate::schema::ValidationReport;
use polars::error::PolarsError;
use polars::frame::DataFrame;
use polars::prelude::CsvReadOptions;
use polars::prelude::DataType;
use polars::prelude::ParquetWriter;
use polars::prelude::SerReader;
use std::io::Cursor;
use vstd::prelude::*;

verus! {

/// The table type of polars. Nothing inside it is seen here: what is known
/// of a frame is what `frame_table` and `frame_height` name.
#[verifier::external_type_specification]
#[verifier::external_body]
pub struct ExDataFrame(polars::frame::DataFrame);

/// The column type of polars. No value of it is handled here; it is declared
/// because the index operators of `DataFrame` hand out slices of it.
#[verifier::external_type_specification]
#[verifier::external_body]
pub struct ExSeries(polars::series::Series);

/// The error type of polars. It is carried to `error_text` and not looked
/// into.
#[verifier::external_type_specification]
#[verifier::external_body]
pub struct ExPolarsError(polars::error::PolarsError);

/// One column of a table.
pub ghost struct ColumnModel {
    /// The column's name.
    pub name: Seq<char>,
    /// The column's cells from the first row on, each as text and `None`
    /// where it is empty; `None` for a column that cannot be put as text.
    pub cells: Option<Seq<Option<Seq<char>>>>,
}

/// The names of the columns of `table`, in their order.
pub open spec fn column_names_of(table: Seq<ColumnModel>) -> Seq<Seq<char>> {
    table.map_values(|column: ColumnModel| column.name)
}

/// The columns of a frame, in the frame's order.
pub uninterp spec fn frame_table(frame: DataFrame) -> Seq<ColumnModel>;

/// The number of rows of a frame.
pub uninterp spec fn frame_height(frame: DataFrame) -> nat;

/// The columns and the number of rows that the reader, working in one
/// thread, finds in delimited text; `None` where it refuses the text.
pub uninterp spec fn csv_table(data: Seq<u8>) -> Option<(Seq<ColumnModel>, nat)>;

/// The columnar encoding of a frame, `None` where the writer refuses it.
pub uninterp spec fn parquet_image(frame: DataFrame) -> Option<Seq<u8>>;

/// The names of a frame's columns, in the frame's order.
pub open spec fn frame_columns(frame: DataFrame) -> Seq<Seq<char>> {
    column_names_of(frame_table(frame))
}

/// Whether `out` holds, for each of `names` in turn, a column of `source` of
/// that name.
pub open spec fn is_selection(
    out: Seq<ColumnModel>,
    source: Seq<ColumnModel>,
    names: Seq<Seq<char>>,
) -> bool {
    &&& out.len() == names.len()
    &&& forall|i: int|
        0 <= i < out.len() ==> (#[trigger] out[i]).name == names[i] && source.contains(out[i])
}

/// The number of rows of a selection of `asked` columns from a frame of
/// `rows` rows: a frame without columns has no rows.
pub open spec fn selected_height(asked: nat, rows: nat) -> nat {
    if asked > 0 {
        rows
    } else {
        0
    }
}

/// `CsvReader::finish` on bytes in memory, with the default `CsvReadOptions`
/// but for one thread, so that the text is read in one piece. Claimed: the
/// frame has the columns and the number of rows that the reader finds in the
/// bytes, and the call fails exactly where it refuses them. Not covered: polars
/// panics where `POLARS_MAX_THREADS` holds no number, and, where
/// `POLARS_PANIC_ON_ERR` is set, in place of every error.
#[verifier::external_body]
fn read_csv(data: &Vec<u8>) -> (r: Result<DataFrame, PolarsError>)
    ensures
        match r {
            Ok(frame) => csv_table(data@) == Some((frame_table(frame), frame_height(frame))),
            Err(_) => csv_table(data@) is None,
        },
{
    CsvReadOptions::default().with_n_threads(Some(1)).into_reader_with_file_handle(
        Cursor::new(data.as_slice()),
    ).finish()
}

/// `DataFrame::get_column_names`. Claimed: the names come in the frame's order.
#[verifier::external_body]
fn column_names(frame: &DataFrame) -> (names: Vec<String>)
    ensures
        names.deep_view() == frame_columns(*frame),
{
    frame.get_column_names().into_iter().map(String::from).collect()
}

/// `DataFrame::width`. Claimed: it counts the frame's columns.
#[verifier::external_body]
fn column_count(frame: &DataFrame) -> (columns: usize)
    ensures
        columns == frame_table(*frame).len(),
{
    frame.width()
}

/// `DataFrame::height`.
#[verifier::external_body]
fn row_count(frame: &DataFrame) -> (rows: usize)
    ensures
        rows == frame_height(*frame),
{
    frame.height()
}

/// `Series::cast` to text on the column that `DataFrame::get_columns` has at
/// `index`, then the cells of `Series::str`. Claimed: the cells are those of
/// that column, and the call fails exactly for a column that cannot be put as
/// text.
#[verifier::external_body]
fn column_text(frame: &DataFrame, index: usize) -> (r: Result<Vec<Option<String>>, PolarsError>)
    requires
        index < frame_table(*frame).len(),
    ensures
        match r {
            Ok(cells) => frame_table(*frame)[index as int].cells == Some(cells.deep_view()),
            Err(_) => frame_table(*frame)[index as int].cells is None,
        },
{
    let text = frame.get_columns()[index].cast(&DataType::String)?;
    let cells = text.str()?.into_iter().map(|cell| cell.map(String::from)).collect();
    Ok(cells)
}

/// `DataFrame::select`, for names of which none is asked for twice and all
/// are columns of the frame. Claimed: it then succeeds; the new frame holds,
/// for each name in the order asked, a column of the frame of that name, as
/// it is; and it has as many rows, unless no name was asked for.
#[verifier::external_body]
fn select_columns(frame: &DataFrame, names: &Vec<String>) -> (r: Result<DataFrame, PolarsError>)
    requires
        names.deep_view().no_duplicates(),
        forall|i: int|
            0 <= i < names.len() ==> frame_columns(*frame).contains(#[trigger] names[i]@),
    ensures
        r is Ok,
        r matches Ok(out) ==> is_selection(
            frame_table(out),
            frame_table(*frame),
            names.deep_view(),
        ),
        r matches Ok(out) ==> frame_height(out) == selected_height(
            names.len() as nat,
            frame_height(*frame),
        ),
{
    frame.select(names)
}

/// `ParquetWriter::finish` on a writer made by `ParquetWriter::new` over a
/// buffer. Claimed: the bytes are the frame's encoding, and the frame keeps its
/// columns and rows.
#[verifier::external_body]
fn encode_parquet(frame: &mut DataFrame) -> (r: Result<Vec<u8>, PolarsError>)
    ensures
        frame_table(*final(frame)) == frame_table(*old(frame)),
        frame_height(*final(frame)) == frame_height(*old(frame)),
        match r {
            Ok(bytes) => parquet_image(*old(frame)) == Some(bytes@),
            Err(_) => parquet_image(*old(frame)) is None,
        },
{
    let mut out: Vec<u8> = Vec::new();
    ParquetWriter::new(&mut out).finish(frame)?;
    Ok(out)
}

/// The text of a `PolarsError`, as its `Display` gives it.
#[verifier::external_body]
fn error_text(error: &PolarsError) -> (text: String) {
    format!("{}", error)
}

/// Delimited text that cannot be read as a table, with the reader's message.
#[derive(Debug, PartialEq, Eq)]
pub struct ReadError {
    pub message: String,
}

/// Why a projection gave no frame.
#[derive(Debug, PartialEq, Eq)]
pub enum ProjectionError {
    /// The text could not be read as a table.
    Unreadable(String),
    /// The table lacks the named column.
    ColumnNotFound(String),
}

/// Why a frame was not written.
#[derive(Debug, PartialEq, Eq)]
pub enum WriteError {
    /// The place to write to could not be created or written.
    LocalIOError(String),
    /// The frame could not be encoded.
    SerializationError(String),
}

/// A table in memory: named columns of equal height.
pub struct TabularFrame {
    frame: DataFrame,
}

impl TabularFrame {
    /// The columns, in the frame's order.
    pub closed spec fn table(&self) -> Seq<ColumnModel> {
        frame_table(self.frame)
    }

    /// The names of the columns, in the frame's order.
    pub open spec fn columns(&self) -> Seq<Seq<char>> {
        column_names_of(self.table())
    }

    /// The number of rows.
    pub closed spec fn height(&self) -> nat {
        frame_height(self.frame)
    }

    /// The frame's columnar encoding, `None` where it has none.
    pub closed spec fn encoding(&self) -> Option<Seq<u8>> {
        parquet_image(self.frame)
    }

    /// Reads delimited text with a header row. The frame has the columns that
    /// the header names, in the header's order, with the cells and the rows
    /// of the text.
    pub fn from_csv(data: &Vec<u8>) -> (r: Result<TabularFrame, ReadError>)
        ensures
            match r {
                Ok(frame) => csv_table(data@) == Some((frame.table(), frame.height())),
                Err(_) => csv_table(data@) is None,
            },
    {
        match read_csv(data) {
            Ok(frame) => Ok(TabularFrame { frame }),
            Err(error) => Err(ReadError { message: error_text(&error) }),
        }
    }

    /// The names of the columns, in the frame's order.
    pub fn column_names(&self) -> (names: Vec<String>)
        ensures
            names.deep_view() == self.columns(),
    {
        column_names(&self.frame)
    }

    /// The number of rows.
    pub fn row_count(&self) -> (rows: usize)
        ensures
            rows == self.height(),
    {
        row_count(&self.frame)
    }

    /// The cells of the column at `index` from the first row on, each as text
    /// and `None` where it is empty. There is nothing at and after the number
    /// of columns, nor for a column that cannot be put as text.
    pub fn column_text(&self, index: usize) -> (r: Option<Vec<Option<String>>>)
        ensures
            match r {
                Some(cells) => index < self.table().len() && self.table()[index as int].cells
                    == Some(cells.deep_view()),
                None => index < self.table().len() ==> self.table()[index as int].cells is None,
            },
    {
        if index >= column_count(&self.frame) {
            return None;
        }
        match column_text(&self.frame, index) {
            Ok(cells) => Some(cells),
            Err(_) => None,
        }
    }

    /// A new frame with exactly the columns of `desired`, in the order of
    /// `desired` whatever the order of this frame: each is this frame's
    /// column of that name, with its cells as they are, so the new frame has
    /// this frame's rows. Where this frame lacks one of them there is no new
    /// frame: the error names the first that it lacks.
    pub fn project(&self, desired: &ColumnSet) -> (r: Result<TabularFrame, ProjectionError>)
        ensures
            match r {
                Ok(out) => {
                    &&& first_absent(desired@, self.columns()) is None
                    &&& is_selection(out.table(), self.table(), desired@)
                    &&& out.columns() == desired@
                    &&& out.height() == selected_height(desired@.len(), self.height())
                },
                Err(ProjectionError::ColumnNotFound(name)) => first_absent(
                    desired@,
                    self.columns(),
                ) == Some(name@),
                Err(ProjectionError::Unreadable(_)) => false,
            },
    {
        let wanted = desired.names();
        let present = column_names(&self.frame);
        let mut i: usize = 0;
        while i < wanted.len()
            invariant
                i <= wanted.len(),
                wanted.deep_view() == desired@,
                present.deep_view() == self.columns(),
                forall|j: int| 0 <= j < i ==> self.columns().contains(#[trigger] desired@[j]),
            decreases wanted.len() - i,
        {
            if !contains_name(&present, &wanted[i]) {
                proof {
                    assert(wanted.deep_view()[i as int] == wanted[i as int]@);
                    lemma_first_absent_at(desired@, self.columns(), i as int);
                }
                return Err(ProjectionError::ColumnNotFound(wanted[i].clone()));
            }
            assert(wanted.deep_view()[i as int] == wanted[i as int]@);
            i += 1;
        }
        proof {
            lemma_first_absent_none(desired@, self.columns());
            assert forall|j: int| 0 <= j < wanted.len() implies frame_columns(
                self.frame,
            ).contains(#[trigger] wanted[j]@) by {
                assert(wanted.deep_view()[j] == wanted[j]@);
            }
        }
        match select_columns(&self.frame, wanted) {
            Ok(frame) => {
                let out = TabularFrame { frame };
                proof {
                    assert(out.columns() =~= desired@);
                }
                Ok(out)
            },
            Err(error) => Err(ProjectionError::Unreadable(error_text(&error))),
        }
    }

    /// The frame's columnar encoding, for the caller to store. The frame keeps
    /// its columns and rows.
    pub fn write(&mut self) -> (r: Result<Vec<u8>, WriteError>)
        ensures
            final(self).table() == old(self).table(),
            final(self).height() == old(self).height(),
            match r {
                Ok(bytes) => old(self).encoding() == Some(bytes@),
                Err(WriteError::SerializationError(_)) => old(self).encoding() is None,
                Err(WriteError::LocalIOError(_)) => false,
            },
    {
        match encode_parquet(&mut self.frame) {
            Ok(bytes) => Ok(bytes),
            Err(error) => Err(WriteError::SerializationError(error_text(&error))),
        }
    }
}

/// Where no name occurs twice among the columns of `source`, a selection
/// holds for each name the one column of `source` of that name: its cells
/// are those of the source, row for row.
pub proof fn lemma_selection_takes_named_columns(
    out: Seq<ColumnModel>,
    source: Seq<ColumnModel>,
    names: Seq<Seq<char>>,
)
    requires
        is_selection(out, source, names),
        column_names_of(source).no_duplicates(),
    ensures
        forall|i: int, j: int|
            0 <= i < names.len() && 0 <= j < source.len() && (#[trigger] source[j]).name
                == #[trigger] names[i] ==> out[i] == source[j],
{
    assert forall|i: int, j: int|
        0 <= i < names.len() && 0 <= j < source.len() && (#[trigger] source[j]).name
            == #[trigger] names[i] implies out[i] == source[j] by {
        assert(source.contains(out[i]));
        let k = choose|k: int| 0 <= k < source.len() && source[k] == out[i];
        assert(column_names_of(source)[k] == column_names_of(source)[j]);
    }
}

/// Where no name occurs twice among the columns of `source`, there is one
/// selection only: reading and projecting the same table again gives the
/// same columns with the same cells.
pub proof fn lemma_selection_is_unique(
    first: Seq<ColumnModel>,
    second: Seq<ColumnModel>,
    source: Seq<ColumnModel>,
    names: Seq<Seq<char>>,
)
    requires
        is_selection(first, source, names),
        is_selection(second, source, names),
        column_names_of(source).no_duplicates(),
    ensures
        first == second,
{
    lemma_selection_takes_named_columns(first, source, names);
    lemma_selection_takes_named_columns(second, source, names);
    assert forall|i: int| 0 <= i < first.len() implies first[i] == second[i] by {
        assert(source.contains(first[i]));
        let k = choose|k: int| 0 <= k < source.len() && source[k] == first[i];
        assert(source[k].name == names[i]);
    }
    assert(first =~= second);
}

/// A table that has exactly the names asked for, in the order asked, is its
/// own selection: projecting a projected table changes nothing.
pub proof fn lemma_selection_of_selected_is_identity(
    out: Seq<ColumnModel>,
    source: Seq<ColumnModel>,
    names: Seq<Seq<char>>,
)
    requires
        is_selection(out, source, names),
        names.no_duplicates(),
        column_names_of(source) == names,
    ensures
        out == source,
{
    lemma_selection_takes_named_columns(out, source, names);
    assert forall|i: int| 0 <= i < out.len() implies out[i] == source[i] by {
        assert(column_names_of(source)[i] == names[i]);
    }
    assert(out =~= source);
}

/// The first name of `desired` that is not among `columns`, if there is one.
pub open spec fn first_absent(desired: Seq<Seq<char>>, columns: Seq<Seq<char>>) -> Option<
    Seq<char>,
>
    decreases desired.len(),
{
    if desired.len() == 0 {
        None
    } else if !columns.contains(desired[0]) {
        Some(desired[0])
    } else {
        first_absent(desired.skip(1), columns)
    }
}

/// Where every name of `desired` is among `columns`, none is absent; and the
/// other way round.
pub proof fn lemma_first_absent_none(desired: Seq<Seq<char>>, columns: Seq<Seq<char>>)
    ensures
        first_absent(desired, columns) is None <==> forall|j: int|
            0 <= j < desired.len() ==> columns.contains(#[trigger] desired[j]),
    decreases desired.len(),
{
    if desired.len() > 0 {
        let rest = desired.skip(1);
        lemma_first_absent_none(rest, columns);
        if first_absent(desired, columns) is None {
            assert forall|j: int| 0 <= j < desired.len() implies columns.contains(
                #[trigger] desired[j],
            ) by {
                if j > 0 {
                    assert(rest[j - 1] == desired[j]);
                }
            }
        }
        if forall|j: int| 0 <= j < desired.len() ==> columns.contains(#[trigger] desired[j]) {
            assert(columns.contains(desired[0]));
            assert forall|j: int| 0 <= j < rest.len() implies columns.contains(
                #[trigger] rest[j],
            ) by {
                assert(rest[j] == desired[j + 1]);
            }
        }
    }
}

/// The name at `at` is the first absent one if `columns` lacks it and holds
/// all that stand before it.
pub proof fn lemma_first_absent_at(desired: Seq<Seq<char>>, columns: Seq<Seq<char>>, at: int)
    requires
        0 <= at < desired.len(),
        !columns.contains(desired[at]),
        forall|j: int| 0 <= j < at ==> columns.contains(#[trigger] desired[j]),
    ensures
        first_absent(desired, columns) == Some(desired[at]),
    decreases at,
{
    if at > 0 {
        let rest = desired.skip(1);
        assert(columns.contains(desired[0]));
        assert forall|j: int| 0 <= j < at - 1 implies columns.contains(#[trigger] rest[j]) by {
            assert(rest[j] == desired[j + 1]);
        }
        assert(rest[at - 1] == desired[at]);
        lemma_first_absent_at(rest, columns, at - 1);
    }
}

/// Which name is the first absent one depends on which names `columns` holds,
/// not on their order: two lists that hold the same names give the same answer.
pub proof fn lemma_first_absent_ignores_order(
    desired: Seq<Seq<char>>,
    columns: Seq<Seq<char>>,
    shuffled: Seq<Seq<char>>,
)
    requires
        forall|name: Seq<char>| columns.contains(name) <==> shuffled.contains(name),
    ensures
        first_absent(desired, columns) == first_absent(desired, shuffled),
    decreases desired.len(),
{
    if desired.len() > 0 {
        lemma_first_absent_ignores_order(desired.skip(1), columns, shuffled);
    }
}

/// The column that a projection names as absent is one that the validation
/// reports as missing, where every desired column is expected. So a header of
/// which nothing is reported missing can be projected.
pub proof fn lemma_absent_column_is_reported_missing(
    header: Seq<Seq<char>>,
    desired: Seq<Seq<char>>,
    expected: Seq<Seq<char>>,
)
    requires
        forall|i: int| 0 <= i < desired.len() ==> expected.contains(#[trigger] desired[i]),
    ensures
        first_absent(desired, header) matches Some(name) ==> missing_columns(
            header,
            expected,
        ).contains(name),
        missing_columns(header, expected).len() == 0 ==> first_absent(desired, header) is None,
    decreases desired.len(),
{
    if desired.len() > 0 {
        let rest = desired.skip(1);
        assert forall|i: int| 0 <= i < rest.len() implies expected.contains(#[trigger] rest[i]) by {
            assert(rest[i] == desired[i + 1]);
        }
        lemma_absent_column_is_reported_missing(header, rest, expected);
        assert(expected.contains(desired[0]));
        lemma_report_membership(header, expected, desired[0]);
    }
    if let Some(name) = first_absent(desired, header) {
        let missing = missing_columns(header, expected);
        assert(missing.contains(name));
        let k = choose|k: int| 0 <= k < missing.len() && missing[k] == name;
        assert(missing.len() > 0);
    }
}

/// The names that are kept are all expected, so the column that
/// `column_filter` names as absent is among those that `column_verifier`
/// reports as missing for the same table.
pub proof fn lemma_filter_agrees_with_verifier(header: Seq<Seq<char>>)
    ensures
        first_absent(desired_names(), header) matches Some(name) ==> missing_columns(
            header,
            expected_names(),
        ).contains(name),
        missing_columns(header, expected_names()).len() == 0 ==> first_absent(
            desired_names(),
            header,
        ) is None,
{
    lemma_desired_names_lead_expected();
    lemma_absent_column_is_reported_missing(header, desired_names(), expected_names());
}

/// The length of the first row of `data`, its line feed counted.
pub open spec fn first_row_len(data: Seq<u8>) -> nat
    decreases data.len(),
{
    if data.len() == 0 {
        0
    } else if data[0] == 10u8 {
        1
    } else {
        1 + first_row_len(data.skip(1))
    }
}

/// The first row of `data`: the bytes up to the first line feed and that line
/// feed, or all of `data` where it holds none.
pub open spec fn first_row(data: Seq<u8>) -> Seq<u8> {
    data.take(first_row_len(data) as int)
}

/// The first row of `data`, which is the header row of delimited text.
pub fn header_row(data: &Vec<u8>) -> (row: Vec<u8>)
    ensures
        row@ == first_row(data@),
{
    let mut row: Vec<u8> = Vec::new();
    let mut i: usize = 0;
    proof {
        assert(data@.skip(0) =~= data@);
        assert(row@ =~= data@.take(0));
    }
    while i < data.len()
        invariant
            i <= data.len(),
            row@ == data@.take(i as int),
            first_row_len(data@) == i + first_row_len(data@.skip(i as int)),
        decreases data.len() - i,
    {
        let byte = data[i];
        row.push(byte);
        proof {
            assert(data@.skip(i as int)[0] == data@[i as int]);
            assert(data@.skip(i as int).skip(1) =~= data@.skip(i + 1));
            assert(row@ =~= data@.take(i + 1));
        }
        i += 1;
        if byte == 10 {
            return row;
        }
    }
    proof {
        assert(data@.take(data.len() as int) =~= data@);
    }
    row
}

/// The first row is a front part of the text that holds no line feed but at
/// its end, and it is all of the text unless it ends in a line feed.
pub proof fn lemma_first_row_is_first_line(data: Seq<u8>)
    ensures
        first_row_len(data) <= data.len(),
        first_row(data) == data.take(first_row_len(data) as int),
        forall|i: int| 0 <= i < first_row_len(data) - 1 ==> data[i] != 10u8,
        first_row_len(data) == data.len() || data[first_row_len(data) - 1] == 10u8,
        data.len() > 0 ==> first_row_len(data) > 0,
    decreases data.len(),
{
    if data.len() > 0 && data[0] != 10u8 {
        let rest = data.skip(1);
        lemma_first_row_is_first_line(rest);
        assert forall|i: int| 0 <= i < first_row_len(data) - 1 implies data[i] != 10u8 by {
            if i > 0 {
                assert(rest[i - 1] == data[i]);
            }
        }
        if first_row_len(data) != data.len() {
            assert(rest[first_row_len(rest) - 1] == data[first_row_len(data) - 1]);
        }
    }
}

/// The header of delimited text: no column for empty text, else the names of
/// the columns that the reader finds in the first row, `None` where it
/// refuses that row.
pub open spec fn header_of(data: Seq<u8>) -> Option<Seq<Seq<char>>> {
    if data.len() == 0 {
        Some(Seq::empty())
    } else {
        match csv_table(first_row(data)) {
            Some(table) => Some(column_names_of(table.0)),
            None => None,
        }
    }
}

/// The header goes by the first row alone: texts with the same first row
/// have the same header, whatever their data rows hold.
pub proof fn lemma_header_ignores_data_rows(data: Seq<u8>, other: Seq<u8>)
    requires
        first_row(data) == first_row(other),
    ensures
        header_of(data) == header_of(other),
{
    lemma_first_row_is_first_line(data);
    lemma_first_row_is_first_line(other);
    assert(first_row(data).len() == first_row_len(data));
    assert(first_row(other).len() == first_row_len(other));
}

/// Holds the header of delimited text against the expected schema. Only the
/// first row is read: no data row changes the report or fails the call. Empty
/// text has no columns, so all expected ones are reported missing. The report
/// is advice and never an error; only a header row that cannot be read is one.
pub fn column_verifier(data: &Vec<u8>) -> (r: Result<ValidationReport, ReadError>)
    ensures
        match r {
            Ok(report) => header_of(data@) matches Some(header) && report.describes(
                header,
                expected_names(),
            ),
            Err(_) => header_of(data@) is None,
        },
{
    let expected = expected_schema();
    if data.len() == 0 {
        let header: Vec<String> = Vec::new();
        assert(header.deep_view() =~= Seq::<Seq<char>>::empty());
        Ok(validate_header(&header, &expected))
    } else {
        let row = header_row(data);
        match read_csv(&row) {
            Ok(frame) => {
                let header = column_names(&frame);
                Ok(validate_header(&header, &expected))
            },
            Err(error) => Err(ReadError { message: error_text(&error) }),
        }
    }
}

/// Reads delimited text and keeps the desired columns, in their fixed order:
/// each is the table's column of that name, with its cells as they are.
/// Fails where the text cannot be read, and where the table lacks a desired
/// column: the error then names the first that it lacks.
pub fn column_filter(data: &Vec<u8>) -> (r: Result<TabularFrame, ProjectionError>)
    ensures
        match r {
            Ok(out) => {
                &&& csv_table(data@) matches Some(table) && first_absent(
                    desired_names(),
                    column_names_of(table.0),
                ) is None && is_selection(out.table(), table.0, desired_names()) && out.height()
                    == table.1
                &&& out.columns() == desired_names()
            },
            Err(ProjectionError::ColumnNotFound(name)) => csv_table(data@) matches Some(table)
                && first_absent(desired_names(), column_names_of(table.0)) == Some(name@),
            Err(ProjectionError::Unreadable(_)) => csv_table(data@) is None,
        },
{
    match TabularFrame::from_csv(data) {
        Ok(frame) => {
            let desired = desired_columns();
            frame.project(&desired)
        },
        Err(error) => Err(ProjectionError::Unreadable(error.message)),
    }
}

} // verus!
