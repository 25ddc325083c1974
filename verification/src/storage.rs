//! The statements that realise a model in the relational backend, and the
//! decoding of what the backend hands back. Nothing here touches a database:
//! every function computes the text and the parameters of a statement, or
//! reads the raw columns of a result.

use vstd::prelude::*;
use vstd::hash_map::StringHashMap;
use vstd::string::*;
use crate::error::ErrorKind;
use crate::row::{has_name, put, value_of, Pairs, Row, RowField, RowValue};
use crate::schema::{FieldDef, ModelDef, ModelVisibilityScope};
use crate::text::{decimal, decimal_string, join, joined, lemma_joined_push, push_decimal, views};

verus! {

/// A value as the backend stores it.
#[derive(Debug, PartialEq, Eq)]
pub enum DbValue {
    Null,
    Integer(i64),
    /// A floating-point number, as the bit pattern of an IEEE 754 double.
    Real(u64),
    Text(String),
    Blob(Vec<u8>),
}

/// What a [`DbValue`] stands for.
pub enum DbValueView {
    Null,
    Integer(i64),
    Real(u64),
    Text(Seq<char>),
    Blob(Seq<u8>),
}

impl View for DbValue {
    type V = DbValueView;

    open spec fn view(&self) -> DbValueView {
        match self {
            DbValue::Null => DbValueView::Null,
            DbValue::Integer(v) => DbValueView::Integer(*v),
            DbValue::Real(v) => DbValueView::Real(*v),
            DbValue::Text(v) => DbValueView::Text(v@),
            DbValue::Blob(v) => DbValueView::Blob(v@),
        }
    }
}

/// The views of the values in `values`, in order.
pub open spec fn value_views(values: Seq<DbValue>) -> Seq<DbValueView> {
    Seq::new(values.len(), |i: int| values[i]@)
}

/// A statement with the values of its `?` placeholders, in order.
#[derive(Debug, PartialEq, Eq)]
pub struct Statement {
    pub sql: String,
    pub params: Vec<DbValue>,
}

/// What a [`Statement`] stands for.
pub struct StatementView {
    pub sql: Seq<char>,
    pub params: Seq<DbValueView>,
}

impl View for Statement {
    type V = StatementView;

    open spec fn view(&self) -> StatementView {
        StatementView { sql: self.sql@, params: value_views(self.params@) }
    }
}

/// Why a statement cannot be built or a result cannot be read.
#[derive(Debug, PartialEq, Eq)]
pub enum StorageError {
    /// A required field without a default is absent from the row.
    MissingField(String),
    /// The row to update carries no `id`.
    MissingId,
    /// The row to update carries an `id` that is no integer.
    InvalidId,
    /// A result row has no column at a position that the model reads.
    ColumnCount,
    /// A column holds a value of another type than its field declares.
    ColumnType,
}

/// What a [`StorageError`] stands for.
pub enum StorageFailure {
    MissingField(Seq<char>),
    MissingId,
    InvalidId,
    ColumnCount,
    ColumnType,
}

impl View for StorageError {
    type V = StorageFailure;

    open spec fn view(&self) -> StorageFailure {
        match self {
            StorageError::MissingField(name) => StorageFailure::MissingField(name@),
            StorageError::MissingId => StorageFailure::MissingId,
            StorageError::InvalidId => StorageFailure::InvalidId,
            StorageError::ColumnCount => StorageFailure::ColumnCount,
            StorageError::ColumnType => StorageFailure::ColumnType,
        }
    }
}

impl StorageError {
    /// What the failure reads as.
    pub fn message(&self) -> (r: String)
        ensures
            r@ == (match self@ {
                StorageFailure::MissingField(name) => "Field "@ + name + " is missing"@,
                StorageFailure::MissingId => "No id found in rec"@,
                StorageFailure::InvalidId => "The id in rec is no integer"@,
                StorageFailure::ColumnCount => "A column is missing from the result"@,
                StorageFailure::ColumnType => "A column is not of the declared type"@,
            }),
    {
        match self {
            StorageError::MissingField(name) => {
                let mut out = "Field ".to_owned();
                out.append(name.as_str());
                out.append(" is missing");
                out
            },
            StorageError::MissingId => "No id found in rec".to_owned(),
            StorageError::InvalidId => "The id in rec is no integer".to_owned(),
            StorageError::ColumnCount => "A column is missing from the result".to_owned(),
            StorageError::ColumnType => "A column is not of the declared type".to_owned(),
        }
    }

    /// How the failure is surfaced.
    pub fn kind(&self) -> (r: ErrorKind)
        ensures
            r == (match self@ {
                StorageFailure::MissingField(_) => ErrorKind::MissingField,
                StorageFailure::MissingId => ErrorKind::MissingField,
                StorageFailure::InvalidId => ErrorKind::Validation,
                StorageFailure::ColumnCount => ErrorKind::Storage,
                StorageFailure::ColumnType => ErrorKind::Storage,
            }),
    {
        match self {
            StorageError::MissingField(_) => ErrorKind::MissingField,
            StorageError::MissingId => ErrorKind::MissingField,
            StorageError::InvalidId => ErrorKind::Validation,
            StorageError::ColumnCount => ErrorKind::Storage,
            StorageError::ColumnType => ErrorKind::Storage,
        }
    }
}

/// The owner recorded for a row that an anonymous caller creates.
pub const NO_OWNER: i64 = -1;

/// The identity of the administrator.
pub const ADMIN: i64 = 0;

/// The stored form of a field value: booleans as 0 and 1, points in time as
/// integers.
pub open spec fn db_value(v: RowValue) -> DbValueView {
    match v {
        RowValue::String(s) => DbValueView::Text(s),
        RowValue::Integer(i) => DbValueView::Integer(i),
        RowValue::Float(bits) => DbValueView::Real(bits),
        RowValue::Boolean(b) => DbValueView::Integer(
            if b {
                1
            } else {
                0
            },
        ),
        RowValue::DateTime(t) => DbValueView::Integer(t),
        RowValue::Null => DbValueView::Null,
    }
}

/// The value that a field takes when a new row leaves it out: the time of
/// creation for a date-time field that asks for it, and none otherwise.
pub open spec fn default_of(f: FieldDef, now: i64) -> Option<RowValue> {
    match f {
        FieldDef::DateTime(d) => if d.default_now == Some(true) {
            Some(RowValue::DateTime(now))
        } else {
            None
        },
        _ => None,
    }
}

/// The storage type of a field's column.
pub open spec fn storage_type(f: FieldDef) -> Seq<char> {
    match f {
        FieldDef::String(_) => "VARCHAR(128)"@,
        FieldDef::Integer(_) => "BIGINT"@,
        FieldDef::Float(_) => "FLOAT"@,
        FieldDef::Boolean(_) => "INTEGER"@,
        FieldDef::DateTime(_) => "DATETIME"@,
        FieldDef::User(_) => "BIGINT"@,
        FieldDef::Reference(_) => "BIGINT"@,
    }
}

/// The declaration of a field's column: its name, its storage type, and
/// `NOT NULL` unless the field is optional.
pub open spec fn column_sql(f: FieldDef) -> Seq<char> {
    if f.optional() {
        f.name_view() + " "@ + storage_type(f)
    } else {
        f.name_view() + " "@ + storage_type(f) + " NOT NULL"@
    }
}

/// What opens the column list of every table: the primary key, the owner
/// and the two timestamps.
pub open spec fn table_head() -> Seq<char> {
    " (\n    id INTEGER PRIMARY KEY AUTOINCREMENT,\n    _oct_owner BIGINT,\n    _oct_create_time timestamp NOT NULL DEFAULT (DATETIME('now')),\n    _oct_update_time timestamp NOT NULL DEFAULT (DATETIME('now'))"@
}

/// The declarations of the columns of `fields`, each on a line of its own
/// after a comma.
pub open spec fn columns_sql(fields: Seq<FieldDef>) -> Seq<char>
    decreases fields.len(),
{
    if fields.len() == 0 {
        Seq::empty()
    } else {
        columns_sql(fields.drop_last()) + ",\n    "@ + column_sql(fields.last())
    }
}

/// The statement that creates the table of a model.
pub open spec fn create_table_sql(m: ModelDef) -> Seq<char> {
    "CREATE TABLE "@ + m.name@ + table_head() + columns_sql(m.field_list()) + "\n);"@
}

/// The statement that adds the column of `f` to the table of `m`.
pub open spec fn alter_table_sql(m: ModelDef, f: FieldDef) -> Seq<char> {
    "ALTER TABLE "@ + m.name@ + "\n            ADD "@ + column_sql(f)
}

/// The row-visibility predicate: every row of a model that everyone sees;
/// of a model that owners see, every row for the administrator and for a
/// caller without identity, and the caller's own rows otherwise.
pub open spec fn visibility_sql(scope: ModelVisibilityScope, uid: Option<i64>) -> Seq<char> {
    match scope {
        ModelVisibilityScope::Everyone => "1"@,
        ModelVisibilityScope::Owner => match uid {
            None => "1"@,
            Some(x) => if x == ADMIN {
                "1"@
            } else {
                "_oct_owner="@ + decimal(x as int)
            },
        },
    }
}

/// The visibility predicate, narrowed to one row where `id` names it.
pub open spec fn condition_sql(scope: ModelVisibilityScope, uid: Option<i64>, id: Option<i64>) -> Seq<
    char,
> {
    match id {
        Some(i) => visibility_sql(scope, uid) + " AND id="@ + decimal(i as int),
        None => visibility_sql(scope, uid),
    }
}

impl RowField {
    /// The stored form of the field.
    pub fn to_db_value(&self) -> (r: DbValue)
        ensures
            r@ == db_value(self@),
    {
        match self {
            RowField::String(v) => DbValue::Text(v.clone()),
            RowField::Integer(v) => DbValue::Integer(*v),
            RowField::Float(v) => DbValue::Real(*v),
            RowField::Boolean(v) => DbValue::Integer(
                if *v {
                    1
                } else {
                    0
                },
            ),
            RowField::DateTime(v) => DbValue::Integer(*v),
            RowField::Null => DbValue::Null,
        }
    }
}

impl FieldDef {
    /// The value that the field takes when a row created at `now`, in
    /// seconds since the Unix epoch, leaves it out.
    pub fn default_value(&self, now: i64) -> (r: Option<RowField>)
        ensures
            match r {
                Some(v) => default_of(*self, now) == Some(v@),
                None => default_of(*self, now) is None,
            },
    {
        match self {
            FieldDef::DateTime(d) => match d.default_now {
                Some(true) => Some(RowField::DateTime(now)),
                _ => None,
            },
            _ => None,
        }
    }

    /// The declaration of the field's column.
    pub fn type_sql(&self) -> (r: String)
        ensures
            r@ == column_sql(*self),
    {
        let typename = match self {
            FieldDef::String(_) => "VARCHAR(128)",
            FieldDef::Integer(_) => "BIGINT",
            FieldDef::Float(_) => "FLOAT",
            FieldDef::Boolean(_) => "INTEGER",
            FieldDef::DateTime(_) => "DATETIME",
            FieldDef::User(_) => "BIGINT",
            FieldDef::Reference(_) => "BIGINT",
        };
        let mut out = self.name().to_owned();
        out.append(" ");
        out.append(typename);
        if !self.is_optional() {
            out.append(" NOT NULL");
        }
        out
    }
}

impl ModelDef {
    /// The statement that creates the model's table: an auto-incrementing
    /// primary key, the owner, the two timestamps, and one column for each
    /// declared field.
    pub fn create_table_query(&self) -> (r: String)
        ensures
            r@ == create_table_sql(*self),
    {
        let mut out = "CREATE TABLE ".to_owned();
        out.append(self.name.as_str());
        out.append(
            " (\n    id INTEGER PRIMARY KEY AUTOINCREMENT,\n    _oct_owner BIGINT,\n    _oct_create_time timestamp NOT NULL DEFAULT (DATETIME('now')),\n    _oct_update_time timestamp NOT NULL DEFAULT (DATETIME('now'))",
        );
        let ghost head = out@;
        if let Some(fields) = &self.fields {
            let mut i: usize = 0;
            assert(fields@.take(0) =~= Seq::<FieldDef>::empty());
            while i < fields.len()
                invariant
                    i <= fields.len(),
                    out@ == head + columns_sql(fields@.take(i as int)),
                decreases fields.len() - i,
            {
                proof {
                    assert(fields@.take(i + 1).drop_last() =~= fields@.take(i as int));
                    assert(fields@.take(i + 1).last() == fields@[i as int]);
                }
                out.append(",\n    ");
                out.append(fields[i].type_sql().as_str());
                assert(out@ =~= head + columns_sql(fields@.take(i + 1)));
                i += 1;
            }
            assert(fields@.take(fields.len() as int) =~= fields@);
        } else {
            assert(out@ =~= head + columns_sql(self.field_list()));
        }
        out.append("\n);");
        out
    }

    /// The statement that adds the column of `f` to the model's table.
    pub fn alter_table_query(&self, f: &FieldDef) -> (r: String)
        ensures
            r@ == alter_table_sql(*self, *f),
    {
        let mut out = "ALTER TABLE ".to_owned();
        out.append(self.name.as_str());
        out.append("\n            ADD ");
        out.append(f.type_sql().as_str());
        out
    }

    /// The predicate that limits a statement to the rows that `uid` may see,
    /// and to the row `id` where one is given.
    pub fn condition(&self, uid: Option<i64>, id: Option<i64>) -> (r: String)
        ensures
            r@ == condition_sql(self.scope(), uid, id),
    {
        let mut ret = match self.get_visibility_scope() {
            ModelVisibilityScope::Everyone => "1".to_owned(),
            ModelVisibilityScope::Owner => match uid {
                None => "1".to_owned(),
                Some(x) => {
                    if x == ADMIN {
                        "1".to_owned()
                    } else {
                        let mut owner = "_oct_owner=".to_owned();
                        push_decimal(&mut owner, x);
                        owner
                    }
                },
            },
        };
        if let Some(id) = id {
            ret.append(" AND id=");
            push_decimal(&mut ret, id);
        }
        ret
    }
}

/// Whether a field of `fields` is named `name`.
pub open spec fn declares(fields: Seq<FieldDef>, name: Seq<char>) -> bool {
    exists|i: int| 0 <= i < fields.len() && (#[trigger] fields[i]).name_view() == name
}

/// The names of `fields`, in order.
pub open spec fn field_names(fields: Seq<FieldDef>) -> Seq<Seq<char>> {
    Seq::new(fields.len(), |i: int| fields[i].name_view())
}

/// The statements that add to the table of `m` a column for each field of
/// `fields` that `old` does not declare, in order.
pub open spec fn added_columns(m: ModelDef, fields: Seq<FieldDef>, old: Seq<FieldDef>) -> Seq<
    Seq<char>,
>
    decreases fields.len(),
{
    if fields.len() == 0 {
        Seq::empty()
    } else if declares(old, fields.last().name_view()) {
        added_columns(m, fields.drop_last(), old)
    } else {
        added_columns(m, fields.drop_last(), old).push(alter_table_sql(m, fields.last()))
    }
}

/// The owner recorded for a row that `uid` creates.
pub open spec fn owner_of(uid: Option<i64>) -> i64 {
    match uid {
        Some(x) => x,
        None => NO_OWNER,
    }
}

/// What a new row stores for the field `f`: the value that the row gives,
/// else the field's default, else nothing if the field is optional. A
/// required field with neither is a failure.
pub open spec fn insert_cell(f: FieldDef, row: Pairs, now: i64) -> Result<
    Option<DbValueView>,
    StorageFailure,
> {
    match value_of(row, f.name_view()) {
        Some(v) => Ok(Some(db_value(v))),
        None => match default_of(f, now) {
            Some(v) => Ok(Some(db_value(v))),
            None => if f.optional() {
                Ok(None)
            } else {
                Err(StorageFailure::MissingField(f.name_view()))
            },
        },
    }
}

/// The failure of the first field of `fields` that a new row cannot store.
pub open spec fn insert_failure(fields: Seq<FieldDef>, row: Pairs, now: i64) -> Option<
    StorageFailure,
>
    decreases fields.len(),
{
    if fields.len() == 0 {
        None
    } else {
        match insert_failure(fields.drop_last(), row, now) {
            Some(e) => Some(e),
            None => match insert_cell(fields.last(), row, now) {
                Err(e) => Some(e),
                Ok(_) => None,
            },
        }
    }
}

/// The names of the fields of `fields` for which a new row stores a value.
pub open spec fn insert_names(fields: Seq<FieldDef>, row: Pairs, now: i64) -> Seq<Seq<char>>
    decreases fields.len(),
{
    if fields.len() == 0 {
        Seq::empty()
    } else {
        match insert_cell(fields.last(), row, now) {
            Ok(Some(_)) => insert_names(fields.drop_last(), row, now).push(
                fields.last().name_view(),
            ),
            _ => insert_names(fields.drop_last(), row, now),
        }
    }
}

/// The values that a new row stores, in the order of their fields.
pub open spec fn insert_values(fields: Seq<FieldDef>, row: Pairs, now: i64) -> Seq<DbValueView>
    decreases fields.len(),
{
    if fields.len() == 0 {
        Seq::empty()
    } else {
        match insert_cell(fields.last(), row, now) {
            Ok(Some(v)) => insert_values(fields.drop_last(), row, now).push(v),
            _ => insert_values(fields.drop_last(), row, now),
        }
    }
}

/// `count` placeholders.
pub open spec fn marks(count: nat) -> Seq<Seq<char>> {
    Seq::new(count, |i: int| "?"@)
}

/// The statement that inserts a row with the owner and the columns `names`.
pub open spec fn insert_sql(table: Seq<char>, names: Seq<Seq<char>>) -> Seq<char> {
    "INSERT INTO "@ + table + " ("@ + joined(seq!["_oct_owner"@] + names, ","@) + ") VALUES ("@
        + joined(marks(names.len() + 1), ","@) + ")"@
}

/// What creating `row` in the table of `m` comes to: the insert statement
/// with the owner first, or the failure of the first field that has no
/// value.
pub open spec fn create_outcome(m: ModelDef, row: Pairs, uid: Option<i64>, now: i64) -> Result<
    StatementView,
    StorageFailure,
> {
    match insert_failure(m.field_list(), row, now) {
        Some(e) => Err(e),
        None => Ok(
            StatementView {
                sql: insert_sql(m.name@, insert_names(m.field_list(), row, now)),
                params: seq![DbValueView::Integer(owner_of(uid))] + insert_values(
                    m.field_list(),
                    row,
                    now,
                ),
            },
        ),
    }
}

/// The names of `pairs` other than `id`, in order.
pub open spec fn update_names(pairs: Pairs) -> Seq<Seq<char>>
    decreases pairs.len(),
{
    if pairs.len() == 0 {
        Seq::empty()
    } else if pairs.last().0 == "id"@ {
        update_names(pairs.drop_last())
    } else {
        update_names(pairs.drop_last()).push(pairs.last().0)
    }
}

/// The stored values of `pairs` under the names other than `id`, in order.
pub open spec fn update_values(pairs: Pairs) -> Seq<DbValueView>
    decreases pairs.len(),
{
    if pairs.len() == 0 {
        Seq::empty()
    } else if pairs.last().0 == "id"@ {
        update_values(pairs.drop_last())
    } else {
        update_values(pairs.drop_last()).push(db_value(pairs.last().1))
    }
}

/// One `name=?` for each name.
pub open spec fn assignments(names: Seq<Seq<char>>) -> Seq<Seq<char>> {
    Seq::new(names.len(), |i: int| names[i] + "=?"@)
}

/// What updating the table of `m` with `row` comes to: the statement that
/// writes every field of the row but `id` into the row that `id` names, if
/// `uid` may see it.
pub open spec fn update_outcome(m: ModelDef, row: Pairs, uid: Option<i64>) -> Result<
    StatementView,
    StorageFailure,
> {
    match value_of(row, "id"@) {
        None => Err(StorageFailure::MissingId),
        Some(RowValue::Integer(id)) => Ok(
            StatementView {
                sql: "UPDATE "@ + m.name@ + " SET "@ + joined(
                    assignments(update_names(row)),
                    ","@,
                ) + " WHERE "@ + condition_sql(m.scope(), uid, Some(id)),
                params: update_values(row),
            },
        ),
        Some(_) => Err(StorageFailure::InvalidId),
    }
}

/// The decimal texts of `pks`, in order.
pub open spec fn decimals(pks: Seq<i64>) -> Seq<Seq<char>> {
    Seq::new(pks.len(), |i: int| decimal(pks[i] as int))
}

/// The statement that deletes the rows of `m` that `uid` may see and whose
/// primary key is in `pks`.
pub open spec fn delete_sql(m: ModelDef, pks: Seq<i64>, uid: Option<i64>) -> Seq<char> {
    "DELETE FROM "@ + m.name@ + " WHERE "@ + condition_sql(m.scope(), uid, None)
        + " AND id in ("@ + joined(decimals(pks), ","@) + ")"@
}

/// The statement that reads the primary key and the declared fields of the
/// rows of `m` that meet `cond`.
pub open spec fn select_sql(m: ModelDef, cond: Seq<char>) -> Seq<char> {
    "SELECT id, "@ + joined(field_names(m.field_list()), ","@) + " FROM "@ + m.name@ + " WHERE "@
        + cond
}

/// The field value that a stored value gives for the field `f`: null for
/// null whatever the field declares, and otherwise the declared variant,
/// with any integer but 0 as true. A value of another storage type is a
/// failure.
pub open spec fn decoded_cell(f: FieldDef, v: DbValueView) -> Result<RowValue, StorageFailure> {
    match (f, v) {
        (_, DbValueView::Null) => Ok(RowValue::Null),
        (FieldDef::String(_), DbValueView::Text(s)) => Ok(RowValue::String(s)),
        (FieldDef::Integer(_), DbValueView::Integer(i)) => Ok(RowValue::Integer(i)),
        (FieldDef::User(_), DbValueView::Integer(i)) => Ok(RowValue::Integer(i)),
        (FieldDef::Reference(_), DbValueView::Integer(i)) => Ok(RowValue::Integer(i)),
        (FieldDef::Boolean(_), DbValueView::Integer(i)) => Ok(RowValue::Boolean(i != 0)),
        (FieldDef::Float(_), DbValueView::Real(bits)) => Ok(RowValue::Float(bits)),
        (FieldDef::DateTime(_), DbValueView::Integer(i)) => Ok(RowValue::DateTime(i)),
        _ => Err(StorageFailure::ColumnType),
    }
}

/// The fields that the columns of a result row give: the field at position
/// `i` is read from column `i + 1`. The first column that cannot be read
/// decides the failure.
pub open spec fn decoded_fields(fields: Seq<FieldDef>, cols: Seq<DbValueView>) -> Result<
    Pairs,
    StorageFailure,
>
    decreases fields.len(),
{
    if fields.len() == 0 {
        Ok(Seq::empty())
    } else {
        match decoded_fields(fields.drop_last(), cols) {
            Err(e) => Err(e),
            Ok(pairs) => if fields.len() >= cols.len() {
                Err(StorageFailure::ColumnCount)
            } else {
                match decoded_cell(fields.last(), cols[fields.len() as int]) {
                    Err(e) => Err(e),
                    Ok(v) => Ok(put(pairs, fields.last().name_view(), v)),
                }
            },
        }
    }
}

/// The row that a result row gives: the declared fields, then `id` from
/// column 0, which must hold an integer.
pub open spec fn decoded_row(m: ModelDef, cols: Seq<DbValueView>) -> Result<Pairs, StorageFailure> {
    match decoded_fields(m.field_list(), cols) {
        Err(e) => Err(e),
        Ok(pairs) => if cols.len() == 0 {
            Err(StorageFailure::ColumnCount)
        } else {
            match cols[0] {
                DbValueView::Integer(id) => Ok(put(pairs, "id"@, RowValue::Integer(id))),
                _ => Err(StorageFailure::ColumnType),
            }
        },
    }
}

/// The rows that result rows give, in order; the first row that cannot be
/// read decides the failure.
pub open spec fn decoded_rows(m: ModelDef, rows: Seq<Seq<DbValueView>>) -> Result<
    Seq<Pairs>,
    StorageFailure,
>
    decreases rows.len(),
{
    if rows.len() == 0 {
        Ok(Seq::empty())
    } else {
        match decoded_rows(m, rows.drop_last()) {
            Err(e) => Err(e),
            Ok(done) => match decoded_row(m, rows.last()) {
                Err(e) => Err(e),
                Ok(pairs) => Ok(done.push(pairs)),
            },
        }
    }
}

/// How many result rows are read under the bound `max`: all of them without
/// a bound, and at most one more than the bound with one.
pub open spec fn rows_read(count: nat, max: Option<usize>) -> nat {
    match max {
        Some(x) => if count <= x {
            count
        } else {
            (x + 1) as nat
        },
        None => count,
    }
}

/// The raw columns of result rows, as views.
pub open spec fn raw_views(rows: Seq<Vec<DbValue>>) -> Seq<Seq<DbValueView>> {
    Seq::new(rows.len(), |i: int| value_views(rows[i]@))
}

/// The views of rows, in order.
pub open spec fn row_views(rows: Seq<Row>) -> Seq<Pairs> {
    Seq::new(rows.len(), |i: int| rows[i]@)
}

/// The statement texts of `statements`, in order.
pub open spec fn statement_texts(statements: Seq<Statement>) -> Seq<Seq<char>> {
    Seq::new(statements.len(), |i: int| statements[i].sql@)
}

/// `count` placeholders, separated by commas.
fn placeholders(count: usize) -> (r: String)
    ensures
        r@ == joined(marks(count as nat), ","@),
{
    let mut out = String::new();
    let mut i: usize = 0;
    assert(marks(0) =~= Seq::<Seq<char>>::empty());
    while i < count
        invariant
            i <= count,
            out@ == joined(marks(i as nat), ","@),
        decreases count - i,
    {
        proof {
            lemma_joined_push(marks(i as nat), ","@, "?"@);
            assert(marks((i + 1) as nat) =~= marks(i as nat).push("?"@));
        }
        if i > 0 {
            out.append(",");
        }
        out.append("?");
        i += 1;
    }
    out
}

/// Whether a field of `fields` is named `name`.
fn has_field(fields: &Vec<FieldDef>, name: &str) -> (r: bool)
    ensures
        r == declares(fields@, name@),
{
    let mut i: usize = 0;
    while i < fields.len()
        invariant
            i <= fields.len(),
            forall|j: int| 0 <= j < i ==> (#[trigger] fields@[j]).name_view() != name@,
        decreases fields.len() - i,
    {
        if fields[i].name().eq(name) {
            return true;
        }
        i += 1;
    }
    false
}

/// The names of the fields that `m` declares, as a set.
fn declared_names(m: &ModelDef) -> (r: StringHashMap<()>)
    ensures
        forall|name: Seq<char>| #[trigger] r@.contains_key(name) <==> declares(m.field_list(), name),
{
    let mut names: StringHashMap<()> = StringHashMap::new();
    if let Some(fields) = &m.fields {
        let mut i: usize = 0;
        while i < fields.len()
            invariant
                i <= fields.len(),
                forall|name: Seq<char>| #[trigger]
                    names@.contains_key(name) <==> declares(fields@.take(i as int), name),
            decreases fields.len() - i,
        {
            let ghost before = names@;
            let ghost added = fields@[i as int].name_view();
            names.insert(fields[i].name().to_owned(), ());
            proof {
                assert forall|name: Seq<char>| #[trigger]
                    names@.contains_key(name) <==> declares(fields@.take(i + 1), name) by {
                    if declares(fields@.take(i + 1), name) {
                        let k = choose|k: int|
                            0 <= k < fields@.take(i + 1).len() && (#[trigger] fields@.take(
                                i + 1,
                            )[k]).name_view() == name;
                        if k < i {
                            assert(fields@.take(i as int)[k].name_view() == name);
                            assert(declares(fields@.take(i as int), name));
                        }
                    }
                    if before.contains_key(name) {
                        let k = choose|k: int|
                            0 <= k < fields@.take(i as int).len() && (#[trigger] fields@.take(
                                i as int,
                            )[k]).name_view() == name;
                        assert(fields@.take(i + 1)[k].name_view() == name);
                    }
                    if name == added {
                        assert(fields@.take(i + 1)[i as int].name_view() == name);
                    }
                }
            }
            i += 1;
        }
        assert(fields@.take(fields.len() as int) =~= fields@);
    }
    names
}

impl ModelDef {
    /// Whether the model declares a field named `name`.
    pub fn has_field(&self, name: &str) -> (r: bool)
        ensures
            r == declares(self.field_list(), name@),
    {
        match &self.fields {
            Some(fields) => has_field(fields, name),
            None => {
                assert(!declares(self.field_list(), name@));
                false
            },
        }
    }

    /// The statement that creates the model's table.
    pub fn create_table(&self) -> (r: Statement)
        ensures
            r@.sql == create_table_sql(*self),
            r@.params.len() == 0,
    {
        Statement { sql: self.create_table_query(), params: Vec::new() }
    }

    /// The statements that bring the model's table from the definition
    /// `old` to this one: one added column for each declared field that `old`
    /// does not declare. Nothing is removed, renamed or retyped.
    pub fn alter_table(&self, old: &ModelDef) -> (r: Vec<Statement>)
        ensures
            statement_texts(r@) == added_columns(*self, self.field_list(), old.field_list()),
            forall|i: int| 0 <= i < r@.len() ==> (#[trigger] r@[i]).params@.len() == 0,
    {
        let mut out: Vec<Statement> = Vec::new();
        let old_fields = declared_names(old);
        if let Some(fields) = &self.fields {
            let mut i: usize = 0;
            assert(fields@.take(0) =~= Seq::<FieldDef>::empty());
            while i < fields.len()
                invariant
                    i <= fields.len(),
                    forall|name: Seq<char>| #[trigger]
                        old_fields@.contains_key(name) <==> declares(old.field_list(), name),
                    statement_texts(out@) == added_columns(
                        *self,
                        fields@.take(i as int),
                        old.field_list(),
                    ),
                    forall|j: int| 0 <= j < out@.len() ==> (#[trigger] out@[j]).params@.len() == 0,
                decreases fields.len() - i,
            {
                proof {
                    assert(fields@.take(i + 1).drop_last() =~= fields@.take(i as int));
                    assert(fields@.take(i + 1).last() == fields@[i as int]);
                }
                let f = &fields[i];
                let known = old_fields.contains_key(f.name());
                if !known {
                    let ghost before = statement_texts(out@);
                    out.push(Statement { sql: self.alter_table_query(f), params: Vec::new() });
                    assert(statement_texts(out@) =~= before.push(alter_table_sql(*self, *f)));
                }
                i += 1;
            }
            assert(fields@.take(fields.len() as int) =~= fields@);
        } else {
            assert(statement_texts(out@) =~= Seq::<Seq<char>>::empty());
        }
        out
    }

    /// The statement that inserts `rec` for the caller `uid` at the time
    /// `now`, in seconds since the Unix epoch. The owner is the caller, or
    /// nobody for a caller without identity. A declared field takes the
    /// row's value, else its default; an optional field with neither is left
    /// out, and a required one fails the whole insert.
    pub fn create(&self, rec: &Row, uid: Option<i64>, now: i64) -> (r: Result<
        Statement,
        StorageError,
    >)
        ensures
            match r {
                Ok(statement) => create_outcome(*self, rec@, uid, now) == Ok::<
                    StatementView,
                    StorageFailure,
                >(statement@),
                Err(e) => create_outcome(*self, rec@, uid, now) == Err::<
                    StatementView,
                    StorageFailure,
                >(e@),
            },
    {
        let mut keys: Vec<String> = Vec::new();
        let mut vals: Vec<DbValue> = Vec::new();
        keys.push("_oct_owner".to_owned());
        vals.push(
            DbValue::Integer(
                match uid {
                    Some(x) => x,
                    None => NO_OWNER,
                },
            ),
        );
        let ghost owner = DbValueView::Integer(owner_of(uid));
        assert(views(keys@) =~= seq!["_oct_owner"@]);
        assert(value_views(vals@) =~= seq![owner]);
        if let Some(fields) = &self.fields {
            let mut i: usize = 0;
            assert(fields@.take(0) =~= Seq::<FieldDef>::empty());
            while i < fields.len()
                invariant
                    i <= fields.len(),
                    self.field_list() == fields@,
                    insert_failure(fields@.take(i as int), rec@, now) is None,
                    views(keys@) == seq!["_oct_owner"@] + insert_names(
                        fields@.take(i as int),
                        rec@,
                        now,
                    ),
                    value_views(vals@) == seq![owner] + insert_values(
                        fields@.take(i as int),
                        rec@,
                        now,
                    ),
                decreases fields.len() - i,
            {
                proof {
                    assert(fields@.take(i + 1).drop_last() =~= fields@.take(i as int));
                    assert(fields@.take(i + 1).last() == fields@[i as int]);
                }
                let desc = &fields[i];
                let name = desc.name();
                let val = match rec.get(name) {
                    Some(v) => Some(v.to_db_value()),
                    None => match desc.default_value(now) {
                        Some(x) => Some(x.to_db_value()),
                        None => {
                            if !desc.is_optional() {
                                proof {
                                    lemma_insert_failure_stays(fields@, rec@, now, i as int + 1);
                                }
                                return Err(StorageError::MissingField(name.to_owned()));
                            }
                            None
                        },
                    },
                };
                if let Some(v) = val {
                    let ghost names_before = views(keys@);
                    let ghost values_before = value_views(vals@);
                    keys.push(name.to_owned());
                    vals.push(v);
                    assert(views(keys@) =~= names_before.push(name@));
                    assert(value_views(vals@) =~= values_before.push(v@));
                    assert(views(keys@) =~= seq!["_oct_owner"@] + insert_names(
                        fields@.take(i + 1),
                        rec@,
                        now,
                    ));
                    assert(value_views(vals@) =~= seq![owner] + insert_values(
                        fields@.take(i + 1),
                        rec@,
                        now,
                    ));
                }
                i += 1;
            }
            assert(fields@.take(fields.len() as int) =~= fields@);
        }
        let ghost names = insert_names(self.field_list(), rec@, now);
        assert(keys@.len() == names.len() + 1) by {
            assert(views(keys@).len() == (seq!["_oct_owner"@] + names).len());
        }
        let mut sql = "INSERT INTO ".to_owned();
        sql.append(self.name.as_str());
        sql.append(" (");
        sql.append(join(&keys, ",").as_str());
        sql.append(") VALUES (");
        sql.append(placeholders(keys.len()).as_str());
        sql.append(")");
        Ok(Statement { sql, params: vals })
    }

    /// The statement that writes every field of `rec` but `id` into the row
    /// that `id` names, if the caller `uid` may see that row.
    pub fn update(&self, rec: &Row, uid: Option<i64>) -> (r: Result<Statement, StorageError>)
        ensures
            match r {
                Ok(statement) => update_outcome(*self, rec@, uid) == Ok::<
                    StatementView,
                    StorageFailure,
                >(statement@),
                Err(e) => update_outcome(*self, rec@, uid) == Err::<StatementView, StorageFailure>(
                    e@,
                ),
            },
    {
        let id = match rec.get("id") {
            None => {
                return Err(StorageError::MissingId);
            },
            Some(RowField::Integer(x)) => *x,
            Some(_) => {
                return Err(StorageError::InvalidId);
            },
        };
        let mut keys: Vec<String> = Vec::new();
        let mut vals: Vec<DbValue> = Vec::new();
        let n = rec.len();
        let mut i: usize = 0;
        assert(rec@.take(0) =~= Seq::<(Seq<char>, RowValue)>::empty());
        assert(views(keys@) =~= assignments(update_names(rec@.take(0))));
        assert(value_views(vals@) =~= update_values(rec@.take(0)));
        while i < n
            invariant
                i <= n,
                n == rec@.len(),
                views(keys@) == assignments(update_names(rec@.take(i as int))),
                value_views(vals@) == update_values(rec@.take(i as int)),
            decreases n - i,
        {
            proof {
                assert(rec@.take(i + 1).drop_last() =~= rec@.take(i as int));
                assert(rec@.take(i + 1).last() == rec@[i as int]);
            }
            let k = rec.name_at(i);
            if !k.eq("id") {
                let ghost names_before = views(keys@);
                let ghost values_before = value_views(vals@);
                let mut assignment = k.to_owned();
                assignment.append("=?");
                let v = rec.value_at(i).to_db_value();
                keys.push(assignment);
                vals.push(v);
                assert(views(keys@) =~= names_before.push(k@ + "=?"@));
                assert(value_views(vals@) =~= values_before.push(v@));
                assert(views(keys@) =~= assignments(update_names(rec@.take(i + 1))));
                assert(value_views(vals@) =~= update_values(rec@.take(i + 1)));
            }
            i += 1;
        }
        assert(rec@.take(n as int) =~= rec@);
        let mut sql = "UPDATE ".to_owned();
        sql.append(self.name.as_str());
        sql.append(" SET ");
        sql.append(join(&keys, ",").as_str());
        sql.append(" WHERE ");
        sql.append(self.condition(uid, Some(id)).as_str());
        Ok(Statement { sql, params: vals })
    }

    /// The statement that deletes the rows whose primary key is in `pks` and
    /// that the caller `uid` may see.
    pub fn delete(&self, pks: &[i64], uid: Option<i64>) -> (r: Statement)
        ensures
            r@.sql == delete_sql(*self, pks@, uid),
            r@.params.len() == 0,
    {
        let mut keys: Vec<String> = Vec::new();
        let mut i: usize = 0;
        while i < pks.len()
            invariant
                i <= pks.len(),
                views(keys@) == decimals(pks@.take(i as int)),
            decreases pks.len() - i,
        {
            let ghost before = views(keys@);
            keys.push(decimal_string(pks[i]));
            assert(views(keys@) =~= before.push(decimal(pks@[i as int] as int)));
            assert(views(keys@) =~= decimals(pks@.take(i + 1)));
            i += 1;
        }
        assert(pks@.take(pks.len() as int) =~= pks@);
        let mut sql = "DELETE FROM ".to_owned();
        sql.append(self.name.as_str());
        sql.append(" WHERE ");
        sql.append(self.condition(uid, None).as_str());
        sql.append(" AND id in (");
        sql.append(join(&keys, ",").as_str());
        sql.append(")");
        Statement { sql, params: Vec::new() }
    }

    /// The statement that reads the rows that meet `cond`: the primary key
    /// first, then the declared fields in order.
    pub fn select_where(&self, cond: &str) -> (r: Statement)
        ensures
            r@.sql == select_sql(*self, cond@),
            r@.params.len() == 0,
    {
        let mut names: Vec<String> = Vec::new();
        if let Some(fields) = &self.fields {
            let mut i: usize = 0;
            while i < fields.len()
                invariant
                    i <= fields.len(),
                    views(names@) == field_names(fields@.take(i as int)),
                decreases fields.len() - i,
            {
                let ghost before = views(names@);
                names.push(fields[i].name().to_owned());
                assert(views(names@) =~= before.push(fields@[i as int].name_view()));
                assert(views(names@) =~= field_names(fields@.take(i + 1)));
                i += 1;
            }
            assert(fields@.take(fields.len() as int) =~= fields@);
        } else {
            assert(views(names@) =~= field_names(self.field_list()));
        }
        let mut sql = "SELECT id, ".to_owned();
        sql.append(join(&names, ",").as_str());
        sql.append(" FROM ");
        sql.append(self.name.as_str());
        sql.append(" WHERE ");
        sql.append(cond);
        Statement { sql, params: Vec::new() }
    }

    /// The statement that reads the rows that the caller `uid` may see, or
    /// the one of them that `id` names.
    pub fn select(&self, uid: Option<i64>, id: Option<i64>) -> (r: Statement)
        ensures
            r@.sql == select_sql(*self, condition_sql(self.scope(), uid, id)),
            r@.params.len() == 0,
    {
        self.select_where(self.condition(uid, id).as_str())
    }
}

/// Once a prefix of the fields fails, every longer prefix fails the same
/// way.
pub proof fn lemma_insert_failure_stays(fields: Seq<FieldDef>, row: Pairs, now: i64, n: int)
    requires
        0 <= n <= fields.len(),
        insert_failure(fields.take(n), row, now) is Some,
    ensures
        insert_failure(fields, row, now) == insert_failure(fields.take(n), row, now),
    decreases fields.len() - n,
{
    if n == fields.len() {
        assert(fields.take(n) =~= fields);
    } else {
        assert(fields.take(n + 1).drop_last() =~= fields.take(n));
        lemma_insert_failure_stays(fields, row, now, n + 1);
    }
}

/// Once a prefix of the fields cannot be read, every longer prefix fails the
/// same way.
pub proof fn lemma_decoded_fields_fails(fields: Seq<FieldDef>, cols: Seq<DbValueView>, n: int)
    requires
        0 <= n <= fields.len(),
        decoded_fields(fields.take(n), cols) is Err,
    ensures
        decoded_fields(fields, cols) == decoded_fields(fields.take(n), cols),
    decreases fields.len() - n,
{
    if n == fields.len() {
        assert(fields.take(n) =~= fields);
    } else {
        assert(fields.take(n + 1).drop_last() =~= fields.take(n));
        lemma_decoded_fields_fails(fields, cols, n + 1);
    }
}

impl FieldDef {
    /// The field value that the stored value `v` gives for this field.
    pub fn decode(&self, v: &DbValue) -> (r: Result<RowField, StorageError>)
        ensures
            match r {
                Ok(value) => decoded_cell(*self, v@) == Ok::<RowValue, StorageFailure>(value@),
                Err(e) => decoded_cell(*self, v@) == Err::<RowValue, StorageFailure>(e@),
            },
    {
        match (self, v) {
            (_, DbValue::Null) => Ok(RowField::Null),
            (FieldDef::String(_), DbValue::Text(s)) => Ok(RowField::String(s.clone())),
            (FieldDef::Integer(_), DbValue::Integer(i)) => Ok(RowField::Integer(*i)),
            (FieldDef::User(_), DbValue::Integer(i)) => Ok(RowField::Integer(*i)),
            (FieldDef::Reference(_), DbValue::Integer(i)) => Ok(RowField::Integer(*i)),
            (FieldDef::Boolean(_), DbValue::Integer(i)) => Ok(RowField::Boolean(*i != 0)),
            (FieldDef::Float(_), DbValue::Real(bits)) => Ok(RowField::Float(*bits)),
            (FieldDef::DateTime(_), DbValue::Integer(i)) => Ok(RowField::DateTime(*i)),
            _ => Err(StorageError::ColumnType),
        }
    }
}

impl ModelDef {
    /// Whether the column at position `column` of a result row holds a
    /// declared float: the backend hands such a column over as a real number
    /// even where it holds a whole one.
    pub fn reads_real(&self, column: usize) -> (r: bool)
        ensures
            r == (0 < column <= self.field_list().len() && self.field_list()[column - 1] is Float),
    {
        match &self.fields {
            Some(fields) => {
                if 0 < column && column <= fields.len() {
                    match &fields[column - 1] {
                        FieldDef::Float(_) => true,
                        _ => false,
                    }
                } else {
                    false
                }
            },
            None => false,
        }
    }

    /// Reads one result row of a statement made by [`ModelDef::select`]:
    /// column 0 is the primary key and column `i + 1` holds the field at
    /// position `i`. A null column gives a null field whatever the field
    /// declares.
    pub fn decode_row(&self, cols: &Vec<DbValue>) -> (r: Result<Row, StorageError>)
        ensures
            match r {
                Ok(row) => decoded_row(*self, value_views(cols@)) == Ok::<Pairs, StorageFailure>(
                    row@,
                ),
                Err(e) => decoded_row(*self, value_views(cols@)) == Err::<Pairs, StorageFailure>(
                    e@,
                ),
            },
    {
        let mut row = Row::new();
        let ghost raw = value_views(cols@);
        if let Some(fields) = &self.fields {
            let mut i: usize = 0;
            assert(fields@.take(0) =~= Seq::<FieldDef>::empty());
            while i < fields.len()
                invariant
                    i <= fields.len(),
                    self.field_list() == fields@,
                    raw == value_views(cols@),
                    decoded_fields(fields@.take(i as int), raw) == Ok::<Pairs, StorageFailure>(
                        row@,
                    ),
                decreases fields.len() - i,
            {
                proof {
                    assert(fields@.take(i + 1).drop_last() =~= fields@.take(i as int));
                    assert(fields@.take(i + 1).last() == fields@[i as int]);
                }
                if i + 1 >= cols.len() {
                    proof {
                        lemma_decoded_fields_fails(fields@, raw, i as int + 1);
                    }
                    return Err(StorageError::ColumnCount);
                }
                let f = &fields[i];
                match f.decode(&cols[i + 1]) {
                    Ok(value) => {
                        row.set(f.name(), value);
                    },
                    Err(e) => {
                        proof {
                            lemma_decoded_fields_fails(fields@, raw, i as int + 1);
                        }
                        return Err(e);
                    },
                }
                i += 1;
            }
            assert(fields@.take(fields.len() as int) =~= fields@);
        }
        if cols.len() == 0 {
            return Err(StorageError::ColumnCount);
        }
        match &cols[0] {
            DbValue::Integer(id) => {
                row.set("id", RowField::Integer(*id));
                Ok(row)
            },
            _ => Err(StorageError::ColumnType),
        }
    }

    /// Reads the result rows of a statement made by [`ModelDef::select`],
    /// in order. With a bound, reading stops one row after the bound is
    /// reached. The first row that cannot be read fails the whole result.
    pub fn decode_rows(&self, rows: &Vec<Vec<DbValue>>, max: Option<usize>) -> (r: Result<
        Vec<Row>,
        StorageError,
    >)
        ensures
            match r {
                Ok(out) => decoded_rows(
                    *self,
                    raw_views(rows@).take(rows_read(rows@.len(), max) as int),
                ) == Ok::<Seq<Pairs>, StorageFailure>(row_views(out@)),
                Err(e) => decoded_rows(
                    *self,
                    raw_views(rows@).take(rows_read(rows@.len(), max) as int),
                ) == Err::<Seq<Pairs>, StorageFailure>(e@),
            },
    {
        let limit = match max {
            Some(x) => if rows.len() <= x {
                rows.len()
            } else {
                x + 1
            },
            None => rows.len(),
        };
        let ghost raw = raw_views(rows@).take(limit as int);
        let mut out: Vec<Row> = Vec::new();
        let mut i: usize = 0;
        assert(raw.take(0) =~= Seq::<Seq<DbValueView>>::empty());
        assert(row_views(out@) =~= Seq::<Pairs>::empty());
        while i < limit
            invariant
                i <= limit <= rows.len(),
                limit == rows_read(rows@.len(), max),
                raw == raw_views(rows@).take(limit as int),
                decoded_rows(*self, raw.take(i as int)) == Ok::<Seq<Pairs>, StorageFailure>(
                    row_views(out@),
                ),
            decreases limit - i,
        {
            proof {
                assert(raw.take(i + 1).drop_last() =~= raw.take(i as int));
                assert(raw.take(i + 1).last() == value_views(rows@[i as int]@));
            }
            match self.decode_row(&rows[i]) {
                Ok(row) => {
                    let ghost before = row_views(out@);
                    out.push(row);
                    assert(row_views(out@) =~= before.push(row@));
                },
                Err(e) => {
                    proof {
                        lemma_decoded_rows_fails(*self, raw, i as int + 1);
                    }
                    return Err(e);
                },
            }
            i += 1;
        }
        assert(raw.take(limit as int) =~= raw);
        Ok(out)
    }
}

/// Once a prefix of the result rows cannot be read, every longer prefix
/// fails the same way.
pub proof fn lemma_decoded_rows_fails(m: ModelDef, rows: Seq<Seq<DbValueView>>, n: int)
    requires
        0 <= n <= rows.len(),
        decoded_rows(m, rows.take(n)) is Err,
    ensures
        decoded_rows(m, rows) == decoded_rows(m, rows.take(n)),
    decreases rows.len() - n,
{
    if n == rows.len() {
        assert(rows.take(n) =~= rows);
    } else {
        assert(rows.take(n + 1).drop_last() =~= rows.take(n));
        lemma_decoded_rows_fails(m, rows, n + 1);
    }
}

/// No column is added for fields that the earlier definition declares
/// already.
pub proof fn lemma_no_added_columns(m: ModelDef, fields: Seq<FieldDef>, old: Seq<FieldDef>)
    requires
        forall|i: int| 0 <= i < fields.len() ==> declares(old, (#[trigger] fields[i]).name_view()),
    ensures
        added_columns(m, fields, old) == Seq::<Seq<char>>::empty(),
    decreases fields.len(),
{
    if fields.len() > 0 {
        assert(declares(old, fields[fields.len() - 1].name_view()));
        assert forall|i: int| 0 <= i < fields.drop_last().len() implies declares(
            old,
            (#[trigger] fields.drop_last()[i]).name_view(),
        ) by {
            assert(fields.drop_last()[i] == fields[i]);
        }
        lemma_no_added_columns(m, fields.drop_last(), old);
    }
}

/// Migration is idempotent: once a table has been brought up to a
/// definition, migrating it to the same definition again adds no column.
pub proof fn lemma_migrate_idempotent(m: ModelDef)
    ensures
        added_columns(m, m.field_list(), m.field_list()) == Seq::<Seq<char>>::empty(),
{
    let fields = m.field_list();
    assert forall|i: int| 0 <= i < fields.len() implies declares(
        fields,
        (#[trigger] fields[i]).name_view(),
    ) by {}
    lemma_no_added_columns(m, fields, fields);
}

/// The only failure of an insert is a missing field.
pub proof fn lemma_insert_failure_is_missing_field(fields: Seq<FieldDef>, row: Pairs, now: i64)
    ensures
        insert_failure(fields, row, now) matches Some(e) ==> e is MissingField,
    decreases fields.len(),
{
    if fields.len() > 0 {
        lemma_insert_failure_is_missing_field(fields.drop_last(), row, now);
    }
}

/// Creating a row that lacks a required field without a default fails with
/// a missing field.
pub proof fn lemma_create_needs_required_field(
    m: ModelDef,
    row: Pairs,
    uid: Option<i64>,
    now: i64,
    i: int,
)
    requires
        0 <= i < m.field_list().len(),
        !m.field_list()[i].optional(),
        default_of(m.field_list()[i], now) is None,
        !has_name(row, m.field_list()[i].name_view()),
    ensures
        create_outcome(m, row, uid, now) matches Err(e) && e is MissingField,
{
    let fields = m.field_list();
    assert(fields.take(i + 1).drop_last() =~= fields.take(i));
    assert(fields.take(i + 1).last() == fields[i]);
    assert(insert_cell(fields[i], row, now) is Err);
    assert(insert_failure(fields.take(i + 1), row, now) is Some);
    lemma_insert_failure_stays(fields, row, now, i + 1);
    lemma_insert_failure_is_missing_field(fields, row, now);
}

/// Whether the row or a default gives a value for a field named `name`.
pub open spec fn has_stored_value(fields: Seq<FieldDef>, row: Pairs, now: i64, name: Seq<char>) -> bool {
    has_name(row, name) || exists|j: int|
        0 <= j < fields.len() && (#[trigger] fields[j]).name_view() == name && default_of(
            fields[j],
            now,
        ) is Some
}

/// Creating a row succeeds when every field is optional, given by the row
/// or defaulted; and then a column is stored only where the row or a
/// default gives a value, so an optional field without either is left to
/// the backend as absent.
pub proof fn lemma_create_leaves_out_optional(
    m: ModelDef,
    row: Pairs,
    uid: Option<i64>,
    now: i64,
)
    requires
        forall|i: int|
            0 <= i < m.field_list().len() ==> {
                ||| (#[trigger] m.field_list()[i]).optional()
                ||| has_name(row, m.field_list()[i].name_view())
                ||| default_of(m.field_list()[i], now) is Some
            },
    ensures
        create_outcome(m, row, uid, now) is Ok,
        forall|k: int|
            0 <= k < insert_names(m.field_list(), row, now).len() ==> has_stored_value(
                m.field_list(),
                row,
                now,
                #[trigger] insert_names(m.field_list(), row, now)[k],
            ),
{
    lemma_insert_prefix(m.field_list(), row, now, m.field_list().len() as int);
    assert(m.field_list().take(m.field_list().len() as int) =~= m.field_list());
}

/// What holds of the first `n` fields where each is optional, given by the
/// row or defaulted.
proof fn lemma_insert_prefix(fields: Seq<FieldDef>, row: Pairs, now: i64, n: int)
    requires
        0 <= n <= fields.len(),
        forall|i: int|
            0 <= i < fields.len() ==> {
                ||| (#[trigger] fields[i]).optional()
                ||| has_name(row, fields[i].name_view())
                ||| default_of(fields[i], now) is Some
            },
    ensures
        insert_failure(fields.take(n), row, now) is None,
        forall|k: int|
            0 <= k < insert_names(fields.take(n), row, now).len() ==> has_stored_value(
                fields,
                row,
                now,
                #[trigger] insert_names(fields.take(n), row, now)[k],
            ),
    decreases n,
{
    if n > 0 {
        lemma_insert_prefix(fields, row, now, n - 1);
        assert(fields.take(n).drop_last() =~= fields.take(n - 1));
        assert(fields.take(n).last() == fields[n - 1]);
        let f = fields[n - 1];
        assert(f.optional() || has_name(row, f.name_view()) || default_of(f, now) is Some);
        let names = insert_names(fields.take(n), row, now);
        let earlier = insert_names(fields.take(n - 1), row, now);
        assert forall|k: int| 0 <= k < names.len() implies has_stored_value(
            fields,
            row,
            now,
            #[trigger] names[k],
        ) by {
            if k < earlier.len() {
                assert(names[k] == earlier[k]);
            } else {
                assert(names[k] == f.name_view());
                if !has_name(row, f.name_view()) {
                    assert(default_of(fields[n - 1], now) is Some);
                }
            }
        }
    }
}

/// Whether the value `v` is of the variant that the field `f` declares, or
/// null.
pub open spec fn agrees(f: FieldDef, v: RowValue) -> bool {
    match (f, v) {
        (_, RowValue::Null) => true,
        (FieldDef::String(_), RowValue::String(_)) => true,
        (FieldDef::Integer(_), RowValue::Integer(_)) => true,
        (FieldDef::User(_), RowValue::Integer(_)) => true,
        (FieldDef::Reference(_), RowValue::Integer(_)) => true,
        (FieldDef::Boolean(_), RowValue::Boolean(_)) => true,
        (FieldDef::Float(_), RowValue::Float(_)) => true,
        (FieldDef::DateTime(_), RowValue::DateTime(_)) => true,
        _ => false,
    }
}

/// A value of the declared variant that is stored and read back as it was
/// stored comes back equal: an integer as the same integer, a text as the
/// same text.
pub proof fn lemma_round_trip(f: FieldDef, v: RowValue)
    requires
        agrees(f, v),
    ensures
        decoded_cell(f, db_value(v)) == Ok::<RowValue, StorageFailure>(v),
{
}

/// Whether every row of a model is within the reach of the caller `uid`.
pub open spec fn unrestricted(scope: ModelVisibilityScope, uid: Option<i64>) -> bool {
    scope == ModelVisibilityScope::Everyone || uid is None || uid == Some(ADMIN)
}

/// Whether the caller `uid` sees a row of `owner`: every caller sees it
/// where access is unrestricted, and otherwise only its owner does.
pub open spec fn sees(scope: ModelVisibilityScope, uid: Option<i64>, owner: i64) -> bool {
    unrestricted(scope, uid) || uid == Some(owner)
}

/// The visibility predicate holds of every row where access is
/// unrestricted, and otherwise compares the owner with the caller.
pub proof fn lemma_visibility_sql(scope: ModelVisibilityScope, uid: Option<i64>)
    ensures
        unrestricted(scope, uid) ==> visibility_sql(scope, uid) == "1"@,
        !unrestricted(scope, uid) ==> visibility_sql(scope, uid) == "_oct_owner="@ + decimal(
            uid->0 as int,
        ),
{
}

/// Under owner visibility, a row that the caller `a` created is seen by
/// `a` and by the administrator, and by no other caller `b` with an
/// identity.
pub proof fn lemma_owner_visibility(a: i64, b: i64)
    requires
        b != a,
        b != ADMIN,
    ensures
        sees(ModelVisibilityScope::Owner, Some(a), owner_of(Some(a))),
        sees(ModelVisibilityScope::Owner, Some(ADMIN), owner_of(Some(a))),
        !sees(ModelVisibilityScope::Owner, Some(b), owner_of(Some(a))),
{
}

/// What a backend that keeps what it is given holds for the declared fields
/// of a row that was created from `row`: the value that was stored for the
/// field, and null where none was.
pub open spec fn stored_columns(fields: Seq<FieldDef>, row: Pairs, now: i64) -> Seq<DbValueView> {
    Seq::new(
        fields.len(),
        |i: int|
            match insert_cell(fields[i], row, now) {
                Ok(Some(v)) => v,
                _ => DbValueView::Null,
            },
    )
}

/// What such a backend hands back for that row under the primary key `id`:
/// the key first, then the declared fields.
pub open spec fn stored_row(m: ModelDef, row: Pairs, now: i64, id: i64) -> Seq<DbValueView> {
    seq![DbValueView::Integer(id)] + stored_columns(m.field_list(), row, now)
}

/// Whether the declared fields have names of their own, none of them `id`.
pub open spec fn plain_fields(fields: Seq<FieldDef>) -> bool {
    &&& forall|a: int, b: int|
        0 <= a < b < fields.len() ==> (#[trigger] fields[a]).name_view() != (
        #[trigger] fields[b]).name_view()
    &&& forall|a: int| 0 <= a < fields.len() ==> (#[trigger] fields[a]).name_view() != "id"@
}

/// Whether each value that `row` gives for a declared field is of the
/// variant that the field declares, or null.
pub open spec fn row_agrees(fields: Seq<FieldDef>, row: Pairs) -> bool {
    forall|j: int|
        0 <= j < fields.len() && has_name(row, (#[trigger] fields[j]).name_view()) ==> agrees(
            fields[j],
            value_of(row, fields[j].name_view())->0,
        )
}

/// What is read back for the field `f` of a row that was created from
/// `row`.
pub open spec fn read_back(f: FieldDef, row: Pairs, now: i64) -> RowValue {
    match value_of(row, f.name_view()) {
        Some(v) => v,
        None => match default_of(f, now) {
            Some(v) => v,
            None => RowValue::Null,
        },
    }
}

/// The first `n` fields of a created row are read back in order, each under
/// its name.
proof fn lemma_read_back_prefix(m: ModelDef, row: Pairs, now: i64, id: i64, n: int)
    requires
        plain_fields(m.field_list()),
        row_agrees(m.field_list(), row),
        0 <= n <= m.field_list().len(),
    ensures
        decoded_fields(m.field_list().take(n), stored_row(m, row, now, id)) matches Ok(pairs)
            && pairs.len() == n && forall|j: int|
            0 <= j < n ==> #[trigger] pairs[j] == (
                m.field_list()[j].name_view(),
                read_back(m.field_list()[j], row, now),
            ),
    decreases n,
{
    let fields = m.field_list();
    let cols = stored_row(m, row, now, id);
    if n > 0 {
        lemma_read_back_prefix(m, row, now, id, n - 1);
        assert(fields.take(n).drop_last() =~= fields.take(n - 1));
        assert(fields.take(n).last() == fields[n - 1]);
        let f = fields[n - 1];
        let before = decoded_fields(fields.take(n - 1), cols)->Ok_0;
        assert(cols[n] == stored_columns(fields, row, now)[n - 1]);
        if has_name(row, f.name_view()) {
            assert(agrees(f, value_of(row, f.name_view())->0));
            lemma_round_trip(f, value_of(row, f.name_view())->0);
        } else if default_of(f, now) is Some {
            lemma_round_trip(f, default_of(f, now)->0);
        }
        assert(decoded_cell(f, cols[n]) == Ok::<RowValue, StorageFailure>(read_back(f, row, now)));
        assert(!has_name(before, f.name_view())) by {
            if has_name(before, f.name_view()) {
                let k = crate::row::position(before, f.name_view());
                assert(before[k].0 == fields[k].name_view());
            }
        }
    }
}

/// A row that was created is read back as it was given: every field that
/// `row` gives with a value of the declared variant comes back with an equal
/// value under its name, a field that it leaves out comes back as its
/// default or as null, and the primary key comes back as `id`.
pub proof fn lemma_create_then_select(m: ModelDef, row: Pairs, now: i64, id: i64, i: int)
    requires
        plain_fields(m.field_list()),
        row_agrees(m.field_list(), row),
        0 <= i < m.field_list().len(),
    ensures
        decoded_row(m, stored_row(m, row, now, id)) matches Ok(pairs) && value_of(
            pairs,
            m.field_list()[i].name_view(),
        ) == Some(read_back(m.field_list()[i], row, now)) && value_of(pairs, "id"@) == Some(
            RowValue::Integer(id),
        ),
{
    let fields = m.field_list();
    let cols = stored_row(m, row, now, id);
    lemma_read_back_prefix(m, row, now, id, fields.len() as int);
    assert(fields.take(fields.len() as int) =~= fields);
    let before = decoded_fields(fields, cols)->Ok_0;
    assert(!has_name(before, "id"@)) by {
        if has_name(before, "id"@) {
            let k = crate::row::position(before, "id"@);
            assert(before[k].0 == fields[k].name_view());
        }
    }
    let pairs = before.push(("id"@, RowValue::Integer(id)));
    assert(decoded_row(m, cols) == Ok::<Pairs, StorageFailure>(pairs));
    assert(crate::row::distinct_names(pairs)) by {
        assert forall|a: int, b: int| 0 <= a < b < pairs.len() implies (#[trigger] pairs[a]).0 != (
        #[trigger] pairs[b]).0 by {
            assert(pairs[a].0 == fields[a].name_view());
            if b < fields.len() {
                assert(pairs[b].0 == fields[b].name_view());
            }
        }
    }
    assert(pairs[i] == before[i]);
    crate::row::lemma_position(pairs, fields[i].name_view(), i);
    crate::row::lemma_position(pairs, "id"@, fields.len() as int);
}

impl ModelDef {
    /// Whether the declared fields have names of their own, none of them
    /// `id`. Validation does not ask for this; a model that lacks it gets a
    /// table with a column declared twice, or a field that is read back as
    /// the primary key.
    pub fn has_plain_fields(&self) -> (r: bool)
        ensures
            r == plain_fields(self.field_list()),
    {
        let fields = match &self.fields {
            Some(fields) => fields,
            None => {
                return true;
            },
        };
        let mut i: usize = 0;
        while i < fields.len()
            invariant
                i <= fields.len(),
                self.field_list() == fields@,
                forall|a: int, b: int|
                    0 <= a < b < i ==> (#[trigger] fields@[a]).name_view() != (
                    #[trigger] fields@[b]).name_view(),
                forall|a: int| 0 <= a < i ==> (#[trigger] fields@[a]).name_view() != "id"@,
            decreases fields.len() - i,
        {
            if fields[i].name().eq("id") {
                return false;
            }
            let mut j: usize = 0;
            while j < i
                invariant
                    j <= i < fields.len(),
                    self.field_list() == fields@,
                    forall|a: int|
                        0 <= a < j ==> (#[trigger] fields@[a]).name_view() != fields@[i as int].name_view(),
                decreases i - j,
            {
                if fields[j].name().eq(fields[i].name()) {
                    return false;
                }
                j += 1;
            }
            i += 1;
        }
        true
    }
}

} // verus!
