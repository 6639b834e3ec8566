//! Query results as values: the cells of a result, row by row and column by
//! column.
use vstd::prelude::*;
use vstd::string::*;
use crate::actor_type::outcome::lemma_new_field;
use crate::ast::{ExprModel, IdentModel, Span};
use crate::runtime::eval::{
    evaluated, law_arrays_are_read_by_position, law_dicts_are_read_by_name_and_position,
};
use crate::runtime::value::{
    field, lemma_array_view, lemma_field_at, values_view, with_field, Dict, FloatRepr, Value,
    ValueModel,
};
use crate::runtime::RuntimeErrorModel;
use crate::text::{occurs_in, texts};

verus! {

/// What reading a cell as a type gave.
pub enum Fetched<T> {
    Present(T),
    Null,
    Failed,
}

/// A cell, read as what the type of its column asks for. Of a column of any
/// other type a reading as text is tried.
pub enum PgCell {
    Bool(Fetched<bool>),
    Char(Fetched<i8>),
    Int2(Fetched<i16>),
    Int4(Fetched<i32>),
    Int8(Fetched<i64>),
    Float(Fetched<FloatRepr>),
    Text(Fetched<String>),
    Bytea(Fetched<Vec<u8>>),
    Other { type_label: String, text: Fetched<String> },
}

/// The character that a byte-sized number stands for.
pub open spec fn char_of(n: i8) -> char {
    if n < 0 {
        (n + 256) as char
    } else {
        n as char
    }
}

/// The value of a cell. What cannot be read counts as null, except that a
/// column of an unknown type shows a placeholder with the type's name.
pub open spec fn cell_value(cell: PgCell) -> ValueModel {
    match cell {
        PgCell::Bool(Fetched::Present(b)) => ValueModel::Bool(b),
        PgCell::Char(Fetched::Present(n)) => ValueModel::String(seq![char_of(n)]),
        PgCell::Int2(Fetched::Present(n)) => ValueModel::Number(n as int),
        PgCell::Int4(Fetched::Present(n)) => ValueModel::Number(n as int),
        PgCell::Int8(Fetched::Present(n)) => ValueModel::Number(n as int),
        PgCell::Float(Fetched::Present(x)) => ValueModel::Float { bits: x.bits, text: x.text@ },
        PgCell::Text(Fetched::Present(s)) => ValueModel::String(s@),
        PgCell::Bytea(Fetched::Present(b)) => ValueModel::Bytes(b@),
        PgCell::Other { text: Fetched::Present(s), .. } => ValueModel::String(s@),
        PgCell::Other { type_label, text: Fetched::Failed } => ValueModel::String(
            "<unsupported pg type "@ + type_label@ + ">"@,
        ),
        _ => ValueModel::Null,
    }
}

/// The value of a cell.
pub fn cell_to_value(cell: &PgCell) -> (r: Value)
    ensures
        r@ == cell_value(*cell),
{
    match cell {
        PgCell::Bool(Fetched::Present(b)) => Value::Bool(*b),
        PgCell::Char(Fetched::Present(n)) => {
            let byte: u8 = if *n < 0 {
                (*n as i16 + 256) as u8
            } else {
                *n as u8
            };
            let mut s: String = String::new();
            s.push(byte as char);
            proof {
                assert(s@ =~= seq![char_of(*n)]);
            }
            Value::String(s)
        },
        PgCell::Int2(Fetched::Present(n)) => Value::Number(*n as i64),
        PgCell::Int4(Fetched::Present(n)) => Value::Number(*n as i64),
        PgCell::Int8(Fetched::Present(n)) => Value::Number(*n),
        PgCell::Float(Fetched::Present(x)) => Value::Float(x.clone()),
        PgCell::Text(Fetched::Present(s)) => Value::String(s.clone()),
        PgCell::Bytea(Fetched::Present(b)) => Value::Bytes(b.clone()),
        PgCell::Other { text: Fetched::Present(s), .. } => Value::String(s.clone()),
        PgCell::Other { type_label, text: Fetched::Failed } => Value::String(
            String::from_str("<unsupported pg type ").concat(type_label.as_str()).concat(">"),
        ),
        _ => Value::Null,
    }
}

/// The values of a row's cells.
pub open spec fn row_values(row: Seq<PgCell>) -> Seq<ValueModel> {
    Seq::new(row.len(), |j: int| cell_value(row[j]))
}

/// The values of all cells, row by row.
pub open spec fn table_values(rows: Seq<Vec<PgCell>>) -> Seq<Seq<ValueModel>> {
    Seq::new(rows.len(), |i: int| row_values(rows[i]@))
}

/// Whether every row has a cell for each column.
pub open spec fn rectangular(columns: Seq<String>, rows: Seq<Vec<PgCell>>) -> bool {
    forall|i: int| 0 <= i < rows.len() ==> (#[trigger] rows[i])@.len() == columns.len()
}

/// The values of one column, from the first row to the last.
pub open spec fn column_values(table: Seq<Seq<ValueModel>>, j: int) -> Seq<ValueModel> {
    Seq::new(table.len(), |i: int| table[i][j])
}

/// The columns of a table by their names.
pub open spec fn column_dict(columns: Seq<Seq<char>>, table: Seq<Seq<ValueModel>>) -> Seq<
    (Seq<char>, ValueModel),
>
    decreases columns.len(),
{
    if columns.len() == 0 {
        seq![]
    } else {
        with_field(
            column_dict(columns.drop_last(), table),
            columns.last(),
            ValueModel::Array(column_values(table, columns.len() - 1)),
        )
    }
}

/// The rows of a table.
pub open spec fn row_arrays(table: Seq<Seq<ValueModel>>) -> Seq<ValueModel> {
    Seq::new(table.len(), |i: int| ValueModel::Array(table[i]))
}

/// The columns of a result. Without rows it has none.
pub open spec fn result_columns(
    columns: Seq<Seq<char>>,
    table: Seq<Seq<ValueModel>>,
) -> Seq<Seq<char>> {
    if table.len() == 0 {
        seq![]
    } else {
        columns
    }
}

/// The fields of `ok` after a query: `row`, where `row[i][j]` is cell `j` of row
/// `i`; `col`, the same transposed and by column name; and both counts.
pub open spec fn result_fields(columns: Seq<Seq<char>>, table: Seq<Seq<ValueModel>>) -> Seq<
    (Seq<char>, ValueModel),
> {
    seq![
        ("row"@, ValueModel::Array(row_arrays(table))),
        ("col"@, ValueModel::Dict(column_dict(result_columns(columns, table), table))),
        ("row_count"@, ValueModel::Number(table.len() as int)),
        ("col_count"@, ValueModel::Number(result_columns(columns, table).len() as int)),
    ]
}

fn row_to_array(row: &Vec<PgCell>) -> (r: Value)
    ensures
        r@ == ValueModel::Array(row_values(row@)),
{
    broadcast use lemma_array_view;

    let mut cells: Vec<Value> = Vec::new();
    let mut j: usize = 0;
    while j < row.len()
        invariant
            j <= row@.len(),
            cells@.len() == j,
            forall|k: int| 0 <= k < j ==> (#[trigger] cells@[k])@ == cell_value(row@[k]),
        decreases row@.len() - j,
    {
        cells.push(cell_to_value(&row[j]));
        j += 1;
    }
    proof {
        assert(values_view(cells@) =~= row_values(row@));
    }
    Value::Array(cells)
}

fn column_to_array(
    rows: &Vec<Vec<PgCell>>,
    j: usize,
    Ghost(columns): Ghost<Seq<String>>,
) -> (r: Value)
    requires
        rectangular(columns, rows@),
        j < columns.len(),
    ensures
        r@ == ValueModel::Array(column_values(table_values(rows@), j as int)),
{
    broadcast use lemma_array_view;

    let mut cells: Vec<Value> = Vec::new();
    let mut i: usize = 0;
    while i < rows.len()
        invariant
            i <= rows@.len(),
            cells@.len() == i,
            j < columns.len(),
            rectangular(columns, rows@),
            forall|k: int| 0 <= k < i ==> (#[trigger] cells@[k])@ == cell_value(rows@[k]@[j as int]),
        decreases rows@.len() - i,
    {
        assert(rows@[i as int]@.len() == columns.len());
        cells.push(cell_to_value(&rows[i][j]));
        i += 1;
    }
    proof {
        assert(values_view(cells@) =~= column_values(table_values(rows@), j as int));
    }
    Value::Array(cells)
}

/// The fields of `ok` after a query.
pub fn build_result_dict(columns: &Vec<String>, rows: &Vec<Vec<PgCell>>) -> (r: Dict)
    requires
        rectangular(columns@, rows@),
        columns@.len() <= i64::MAX,
        rows@.len() <= i64::MAX,
    ensures
        r@ == result_fields(texts(columns@), table_values(rows@)),
{
    broadcast use lemma_array_view;

    let ghost table = table_values(rows@);
    let mut arrays: Vec<Value> = Vec::new();
    let mut i: usize = 0;
    while i < rows.len()
        invariant
            i <= rows@.len(),
            arrays@.len() == i,
            forall|k: int|
                0 <= k < i ==> (#[trigger] arrays@[k])@ == ValueModel::Array(
                    row_values(rows@[k]@),
                ),
        decreases rows@.len() - i,
    {
        arrays.push(row_to_array(&rows[i]));
        i += 1;
    }
    proof {
        assert(values_view(arrays@) =~= row_arrays(table));
    }
    let col_count: usize = if rows.len() == 0 {
        0
    } else {
        columns.len()
    };
    let ghost names = result_columns(texts(columns@), table);
    let mut by_name: Dict = Dict::new();
    let mut j: usize = 0;
    while j < col_count
        invariant
            j <= col_count,
            col_count == names.len(),
            col_count == 0 || names == texts(columns@),
            col_count <= columns@.len(),
            table == table_values(rows@),
            rectangular(columns@, rows@),
            by_name@ == column_dict(names.take(j as int), table),
        decreases col_count - j,
    {
        proof {
            assert(names.take(j + 1).drop_last() =~= names.take(j as int));
            assert(names.take(j + 1).last() == columns@[j as int]@);
        }
        by_name.insert(columns[j].clone(), column_to_array(rows, j, Ghost(columns@)));
        j += 1;
    }
    proof {
        assert(names.take(j as int) =~= names);
        reveal_strlit("row");
        reveal_strlit("col");
        reveal_strlit("row_count");
        reveal_strlit("col_count");
        assert("row"@[0] != "col"@[0]);
        assert("row"@.len() == 3 && "col"@.len() == 3);
        assert("row_count"@.len() == 9 && "col_count"@.len() == 9);
        assert("row_count"@[0] != "col_count"@[0]);
    }
    let mut out: Dict = Dict::new();
    proof {
        lemma_new_field(out@, "row"@, Value::Array(arrays)@);
    }
    out.insert(String::from_str("row"), Value::Array(arrays));
    proof {
        lemma_new_field(out@, "col"@, Value::Dict(by_name)@);
    }
    out.insert(String::from_str("col"), Value::Dict(by_name));
    proof {
        lemma_new_field(out@, "row_count"@, ValueModel::Number(rows@.len() as int));
    }
    out.insert(String::from_str("row_count"), Value::Number(rows.len() as i64));
    proof {
        lemma_new_field(out@, "col_count"@, ValueModel::Number(col_count as int));
    }
    out.insert(String::from_str("col_count"), Value::Number(col_count as i64));
    proof {
        assert(out@ =~= result_fields(texts(columns@), table));
    }
    out
}

/// The columns are the rows transposed: where the column names differ, column
/// `j` stands at place `j` under its name, and its entry `i` is cell `j` of row
/// `i`.
pub proof fn law_columns_transpose_rows(
    columns: Seq<Seq<char>>,
    table: Seq<Seq<ValueModel>>,
    i: int,
    j: int,
)
    requires
        columns.no_duplicates(),
        0 <= i < table.len(),
        0 <= j < columns.len(),
    ensures
        column_dict(columns, table).len() == columns.len(),
        column_dict(columns, table)[j] == (
            columns[j],
            ValueModel::Array(column_values(table, j)),
        ),
        field(column_dict(columns, table), columns[j]) == Some(
            ValueModel::Array(column_values(table, j)),
        ),
        column_values(table, j)[i] == table[i][j],
{
    lemma_column_dict(columns, table);
    lemma_field_at(column_dict(columns, table), j);
}

proof fn lemma_column_dict(columns: Seq<Seq<char>>, table: Seq<Seq<ValueModel>>)
    requires
        columns.no_duplicates(),
    ensures
        column_dict(columns, table) == Seq::new(
            columns.len(),
            |j: int| (columns[j], ValueModel::Array(column_values(table, j))),
        ),
    decreases columns.len(),
{
    if columns.len() > 0 {
        let shorter = columns.drop_last();
        lemma_column_dict(shorter, table);
        lemma_new_field(
            column_dict(shorter, table),
            columns.last(),
            ValueModel::Array(column_values(table, columns.len() - 1)),
        );
    }
    assert(column_dict(columns, table) =~= Seq::new(
        columns.len(),
        |j: int| (columns[j], ValueModel::Array(column_values(table, j))),
    ));
}

/// A cell that is there keeps its content: truth values, integers of every
/// width, floats, text and bytes become the value that holds the same.
pub proof fn law_cells_keep_their_content(
    b: bool,
    short: i16,
    medium: i32,
    long: i64,
    x: FloatRepr,
    s: String,
    bytes: Vec<u8>,
    label: String,
)
    ensures
        cell_value(PgCell::Bool(Fetched::Present(b))) == ValueModel::Bool(b),
        cell_value(PgCell::Int2(Fetched::Present(short))) == ValueModel::Number(short as int),
        cell_value(PgCell::Int4(Fetched::Present(medium))) == ValueModel::Number(medium as int),
        cell_value(PgCell::Int8(Fetched::Present(long))) == ValueModel::Number(long as int),
        cell_value(PgCell::Float(Fetched::Present(x))) matches ValueModel::Float { bits, text }
            && bits == x.bits && text == x.text@,
        cell_value(PgCell::Text(Fetched::Present(s))) == ValueModel::String(s@),
        cell_value(PgCell::Bytea(Fetched::Present(bytes))) == ValueModel::Bytes(bytes@),
        cell_value(PgCell::Other { type_label: label, text: Fetched::Present(s) })
            == ValueModel::String(s@),
{
}

/// A one-byte character cell becomes a text of the character of that byte.
pub proof fn law_character_cells_become_text(n: i8)
    ensures
        cell_value(PgCell::Char(Fetched::Present(n))) matches ValueModel::String(s) && s.len() == 1
            && (n >= 0 ==> s[0] as u32 == n as u32) && (n < 0 ==> s[0] as u32 == (n + 256) as u32),
{
}

/// Cells of one type with different content become different values.
pub proof fn law_different_cells_differ(a: PgCell, b: PgCell)
    requires
        cell_value(a) == cell_value(b),
    ensures
        match (a, b) {
            (PgCell::Bool(Fetched::Present(x)), PgCell::Bool(Fetched::Present(y))) => x == y,
            (PgCell::Char(Fetched::Present(x)), PgCell::Char(Fetched::Present(y))) => x == y,
            (PgCell::Int2(Fetched::Present(x)), PgCell::Int2(Fetched::Present(y))) => x == y,
            (PgCell::Int4(Fetched::Present(x)), PgCell::Int4(Fetched::Present(y))) => x == y,
            (PgCell::Int8(Fetched::Present(x)), PgCell::Int8(Fetched::Present(y))) => x == y,
            (
                PgCell::Float(Fetched::Present(x)),
                PgCell::Float(Fetched::Present(y)),
            ) => x.bits == y.bits && x.text@ == y.text@,
            (PgCell::Text(Fetched::Present(x)), PgCell::Text(Fetched::Present(y))) => x@ == y@,
            (PgCell::Bytea(Fetched::Present(x)), PgCell::Bytea(Fetched::Present(y))) => x@ == y@,
            (
                PgCell::Other { text: Fetched::Present(x), .. },
                PgCell::Other { text: Fetched::Present(y), .. },
            ) => x@ == y@,
            _ => true,
        },
{
    if let (PgCell::Char(Fetched::Present(x)), PgCell::Char(Fetched::Present(y))) = (a, b) {
        assert(seq![char_of(x)][0] == seq![char_of(y)][0]);
    }
}

/// A NULL becomes null in every column, and nothing that was read does.
pub proof fn law_null_is_null(cell: PgCell)
    ensures
        cell_value(cell) is Null <==> match cell {
            PgCell::Bool(f) => !(f is Present),
            PgCell::Char(f) => !(f is Present),
            PgCell::Int2(f) => !(f is Present),
            PgCell::Int4(f) => !(f is Present),
            PgCell::Int8(f) => !(f is Present),
            PgCell::Float(f) => !(f is Present),
            PgCell::Text(f) => !(f is Present),
            PgCell::Bytea(f) => !(f is Present),
            PgCell::Other { text, .. } => text is Null,
        },
{
}

/// A cell of an unknown type that cannot be read shows the type's name.
pub proof fn law_unsupported_types_are_named(label: String)
    ensures
        cell_value(PgCell::Other { type_label: label, text: Fetched::Failed })
            matches ValueModel::String(s) && occurs_in(label@, s),
{
    let front = "<unsupported pg type "@;
    let s = front + label@ + ">"@;
    let i = front.len() as int;
    assert(s.subrange(i, i + label@.len()) =~= label@);
}

/// The value that `ok` has after a query.
pub open spec fn query_result(columns: Seq<String>, rows: Seq<Vec<PgCell>>) -> ValueModel {
    ValueModel::Dict(result_fields(texts(columns), table_values(rows)))
}

proof fn lemma_result_members(
    ok: ExprModel,
    property: IdentModel,
    columns: Seq<String>,
    rows: Seq<Vec<PgCell>>,
    span: Span,
    scope: Map<Seq<char>, ValueModel>,
)
    requires
        evaluated(ok, scope) == Ok::<ValueModel, RuntimeErrorModel>(query_result(columns, rows)),
    ensures
        ({
            let read = evaluated(
                ExprModel::MemberAccess { object: Box::new(ok), property, span },
                scope,
            );
            &&& property.name == "row"@ ==> read == Ok::<ValueModel, RuntimeErrorModel>(
                ValueModel::Array(row_arrays(table_values(rows))),
            )
            &&& property.name == "col"@ ==> read == Ok::<ValueModel, RuntimeErrorModel>(
                ValueModel::Dict(
                    column_dict(
                        result_columns(texts(columns), table_values(rows)),
                        table_values(rows),
                    ),
                ),
            )
            &&& property.name == "row_count"@ ==> read == Ok::<ValueModel, RuntimeErrorModel>(
                ValueModel::Number(rows.len() as int),
            )
            &&& property.name == "col_count"@ ==> read == Ok::<ValueModel, RuntimeErrorModel>(
                ValueModel::Number(result_columns(texts(columns), table_values(rows)).len() as int),
            )
        }),
{
    let fields = result_fields(texts(columns), table_values(rows));
    reveal_strlit("row");
    reveal_strlit("col");
    reveal_strlit("row_count");
    reveal_strlit("col_count");
    assert("row"@[0] != "col"@[0]);
    assert("row"@.len() == 3 && "col"@.len() == 3);
    assert("row_count"@.len() == 9 && "col_count"@.len() == 9);
    assert("row_count"@[0] != "col_count"@[0]);
    lemma_field_at(fields, 0);
    lemma_field_at(fields, 1);
    lemma_field_at(fields, 2);
    lemma_field_at(fields, 3);
}

/// `ok.row[i][j]` is cell `j` of row `i`, `ok.row_count` and `ok.col_count` are
/// the numbers of rows and of columns.
pub proof fn law_rows_are_read_cell_by_cell(
    ok: ExprModel,
    columns: Seq<String>,
    rows: Seq<Vec<PgCell>>,
    i: int,
    j: int,
    names: (IdentModel, IdentModel, IdentModel),
    span: Span,
    scope: Map<Seq<char>, ValueModel>,
)
    requires
        evaluated(ok, scope) == Ok::<ValueModel, RuntimeErrorModel>(query_result(columns, rows)),
        rows.len() <= usize::MAX,
        columns.len() <= usize::MAX,
        rectangular(columns, rows),
        0 <= i < rows.len(),
        0 <= j < columns.len(),
        names.0.name == "row"@,
        names.1.name == "row_count"@,
        names.2.name == "col_count"@,
    ensures
        evaluated(
            ExprModel::Index {
                object: Box::new(
                    ExprModel::Index {
                        object: Box::new(
                            ExprModel::MemberAccess {
                                object: Box::new(ok),
                                property: names.0,
                                span,
                            },
                        ),
                        indices: seq![ExprModel::Number(i)],
                        span,
                    },
                ),
                indices: seq![ExprModel::Number(j)],
                span,
            },
            scope,
        ) == Ok::<ValueModel, RuntimeErrorModel>(cell_value(rows[i]@[j])),
        evaluated(
            ExprModel::MemberAccess { object: Box::new(ok), property: names.1, span },
            scope,
        ) == Ok::<ValueModel, RuntimeErrorModel>(ValueModel::Number(rows.len() as int)),
        evaluated(
            ExprModel::MemberAccess { object: Box::new(ok), property: names.2, span },
            scope,
        ) == Ok::<ValueModel, RuntimeErrorModel>(ValueModel::Number(columns.len() as int)),
{
    lemma_result_members(ok, names.0, columns, rows, span, scope);
    lemma_result_members(ok, names.1, columns, rows, span, scope);
    lemma_result_members(ok, names.2, columns, rows, span, scope);
    let table = ExprModel::MemberAccess { object: Box::new(ok), property: names.0, span };
    let row = ExprModel::Index {
        object: Box::new(table),
        indices: seq![ExprModel::Number(i)],
        span,
    };
    law_arrays_are_read_by_position(table, row_arrays(table_values(rows)), i, span, scope);
    assert(rows[i]@.len() == columns.len());
    law_arrays_are_read_by_position(row, row_values(rows[i]@), j, span, scope);
}

/// `ok.col` has the cells of each column, from the first row to the last, under
/// the column's name.
pub proof fn law_columns_are_read_by_name(
    ok: ExprModel,
    columns: Seq<String>,
    rows: Seq<Vec<PgCell>>,
    i: int,
    j: int,
    names: (IdentModel, IdentModel),
    span: Span,
    scope: Map<Seq<char>, ValueModel>,
)
    requires
        evaluated(ok, scope) == Ok::<ValueModel, RuntimeErrorModel>(query_result(columns, rows)),
        rows.len() <= usize::MAX,
        columns.len() <= usize::MAX,
        texts(columns).no_duplicates(),
        rectangular(columns, rows),
        0 <= i < rows.len(),
        0 <= j < columns.len(),
        names.0.name == "col"@,
        names.1.name == columns[j]@,
    ensures
        evaluated(
            ExprModel::Index {
                object: Box::new(
                    ExprModel::MemberAccess {
                        object: Box::new(
                            ExprModel::MemberAccess {
                                object: Box::new(ok),
                                property: names.0,
                                span,
                            },
                        ),
                        property: names.1,
                        span,
                    },
                ),
                indices: seq![ExprModel::Number(i)],
                span,
            },
            scope,
        ) == Ok::<ValueModel, RuntimeErrorModel>(cell_value(rows[i]@[j])),
{
    let table = table_values(rows);
    lemma_result_members(ok, names.0, columns, rows, span, scope);
    assert(result_columns(texts(columns), table) == texts(columns));
    law_columns_transpose_rows(texts(columns), table, i, j);
    let all = ExprModel::MemberAccess { object: Box::new(ok), property: names.0, span };
    let one = ExprModel::MemberAccess { object: Box::new(all), property: names.1, span };
    law_dicts_are_read_by_name_and_position(
        all,
        column_dict(texts(columns), table),
        names.1,
        0,
        span,
        scope,
    );
    law_arrays_are_read_by_position(one, column_values(table, j), i, span, scope);
    assert(rows[i]@.len() == columns.len());
}

/// Reading a cell gives the content that was fetched: truth values stay what
/// they are, integers of every width keep their number, texts and bytes stay.
pub proof fn law_cell_to_value_keeps_content(cell: PgCell, r: Value)
    requires
        call_ensures(cell_to_value, (&cell,), r),
    ensures
        cell matches PgCell::Bool(Fetched::Present(b)) ==> r@ == ValueModel::Bool(b),
        cell matches PgCell::Int2(Fetched::Present(n)) ==> r@ == ValueModel::Number(n as int),
        cell matches PgCell::Int4(Fetched::Present(n)) ==> r@ == ValueModel::Number(n as int),
        cell matches PgCell::Int8(Fetched::Present(n)) ==> r@ == ValueModel::Number(n as int),
        cell matches PgCell::Text(Fetched::Present(s)) ==> r@ == ValueModel::String(s@),
        cell matches PgCell::Bytea(Fetched::Present(b)) ==> r@ == ValueModel::Bytes(b@),
{
}

} // verus!
