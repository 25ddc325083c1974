//! A small read-only query language over the models of an application. A
//! document is a list of selections, each naming a model and the fields of
//! it to return. Nothing else of the query language is accepted: no
//! fragments, variables, directives, aliases or arguments, and no selection
//! below a field of a model.

use vstd::prelude::*;
use vstd::string::*;
use crate::error::ErrorKind;
use crate::json::{json_views, Json, JsonView};
use crate::row::{put, row_members, value_of, Pairs, Row};
use crate::schema::{model_position, AppDef, ModelDef};
use crate::storage::{
    condition_sql, declares, row_views, select_sql, Statement, StatementView,
};

verus! {

/// One field of a selection: at the top of a document it names a model, and
/// below a model it names a field of it.
#[derive(Debug, PartialEq, Eq)]
pub struct QueryField {
    pub alias: Option<String>,
    pub name: String,
    /// How many arguments the field was given.
    pub arguments: usize,
    /// How many directives stand on the field.
    pub directives: usize,
    pub selections: Vec<QuerySelection>,
}

/// One entry of a selection set.
#[derive(Debug, PartialEq, Eq)]
pub enum QuerySelection {
    Field(QueryField),
    FragmentSpread,
    InlineFragment,
}

/// A `query` operation.
#[derive(Debug, PartialEq, Eq)]
pub struct QueryOperation {
    /// How many variables the operation defines.
    pub variable_definitions: usize,
    /// How many directives stand on the operation.
    pub directives: usize,
    pub selections: Vec<QuerySelection>,
}

/// One top-level definition of a document.
#[derive(Debug, PartialEq, Eq)]
pub enum QueryDefinition {
    Fragment,
    Query(QueryOperation),
    /// A selection set without the word `query`.
    SelectionSet(Vec<QuerySelection>),
    Mutation,
    Subscription,
}

/// A parsed query document.
#[derive(Debug, PartialEq, Eq)]
pub struct QueryDocument {
    pub definitions: Vec<QueryDefinition>,
}

/// Why a document is not executed.
#[derive(Debug, PartialEq, Eq)]
pub enum QueryError {
    /// The document defines a fragment.
    Fragment,
    /// An operation is a mutation or a subscription.
    NotQuery,
    /// A query defines variables.
    Variables,
    /// A directive stands on a query.
    Directives,
    /// A top-level selection is a fragment.
    NotField,
    /// A model or a field is selected under another name.
    Alias,
    /// A model or a field is selected with arguments.
    Arguments,
    /// A directive stands on a selected model or field.
    FieldDirectives,
    /// No model has the selected name.
    UnknownModel(String),
    /// A field of a model has a selection of its own.
    Nested,
    /// A selection below a model is a fragment.
    LeafNotField,
    /// The model, or a row of it, has no field of the selected name.
    UnknownField(String),
}

/// What a [`QueryError`] stands for.
pub enum QueryFailure {
    Fragment,
    NotQuery,
    Variables,
    Directives,
    NotField,
    Alias,
    Arguments,
    FieldDirectives,
    UnknownModel(Seq<char>),
    Nested,
    LeafNotField,
    UnknownField(Seq<char>),
}

impl View for QueryError {
    type V = QueryFailure;

    open spec fn view(&self) -> QueryFailure {
        match self {
            QueryError::Fragment => QueryFailure::Fragment,
            QueryError::NotQuery => QueryFailure::NotQuery,
            QueryError::Variables => QueryFailure::Variables,
            QueryError::Directives => QueryFailure::Directives,
            QueryError::NotField => QueryFailure::NotField,
            QueryError::Alias => QueryFailure::Alias,
            QueryError::Arguments => QueryFailure::Arguments,
            QueryError::FieldDirectives => QueryFailure::FieldDirectives,
            QueryError::UnknownModel(name) => QueryFailure::UnknownModel(name@),
            QueryError::Nested => QueryFailure::Nested,
            QueryError::LeafNotField => QueryFailure::LeafNotField,
            QueryError::UnknownField(name) => QueryFailure::UnknownField(name@),
        }
    }
}

impl QueryError {
    /// What the failure reads as.
    pub fn message(&self) -> (r: String)
        ensures
            r@ == (match self@ {
                QueryFailure::Fragment => "Fragment not supported"@,
                QueryFailure::NotQuery => "Not supported: operation type is not query"@,
                QueryFailure::Variables => "Variable definitions not supported"@,
                QueryFailure::Directives => "Directives not supported"@,
                QueryFailure::NotField => "Not supported: selection type is not field"@,
                QueryFailure::Alias => "Field alias is not supported"@,
                QueryFailure::Arguments => "Field arguments is not supported"@,
                QueryFailure::FieldDirectives => "Field directives is not supported"@,
                QueryFailure::UnknownModel(name) => "Model "@ + name + " not found"@,
                QueryFailure::Nested => "Nested selection not supported"@,
                QueryFailure::LeafNotField => "Selection type not supported"@,
                QueryFailure::UnknownField(name) => "f '"@ + name + "' not found"@,
            }),
    {
        match self {
            QueryError::Fragment => "Fragment not supported".to_owned(),
            QueryError::NotQuery => "Not supported: operation type is not query".to_owned(),
            QueryError::Variables => "Variable definitions not supported".to_owned(),
            QueryError::Directives => "Directives not supported".to_owned(),
            QueryError::NotField => "Not supported: selection type is not field".to_owned(),
            QueryError::Alias => "Field alias is not supported".to_owned(),
            QueryError::Arguments => "Field arguments is not supported".to_owned(),
            QueryError::FieldDirectives => "Field directives is not supported".to_owned(),
            QueryError::UnknownModel(name) => {
                let mut out = "Model ".to_owned();
                out.append(name.as_str());
                out.append(" not found");
                out
            },
            QueryError::Nested => "Nested selection not supported".to_owned(),
            QueryError::LeafNotField => "Selection type not supported".to_owned(),
            QueryError::UnknownField(name) => {
                let mut out = "f '".to_owned();
                out.append(name.as_str());
                out.append("' not found");
                out
            },
        }
    }

    /// How the failure is surfaced: an unknown model or field is not found,
    /// and every other failure is an unsupported construct.
    pub fn kind(&self) -> (r: ErrorKind)
        ensures
            r == (match self@ {
                QueryFailure::UnknownModel(_) => ErrorKind::NotFound,
                QueryFailure::UnknownField(_) => ErrorKind::NotFound,
                _ => ErrorKind::Validation,
            }),
    {
        match self {
            QueryError::UnknownModel(_) => ErrorKind::NotFound,
            QueryError::UnknownField(_) => ErrorKind::NotFound,
            _ => ErrorKind::Validation,
        }
    }
}

/// The read that answers one selected model: the statement to run and the
/// names of the fields to return from each row, in the order asked.
#[derive(Debug, PartialEq, Eq)]
pub struct ModelQuery {
    pub model: String,
    pub statement: Statement,
    pub fields: Vec<String>,
}

/// What a [`ModelQuery`] stands for.
pub struct ModelQueryView {
    pub model: Seq<char>,
    pub statement: StatementView,
    pub fields: Seq<Seq<char>>,
}

impl View for ModelQuery {
    type V = ModelQueryView;

    open spec fn view(&self) -> ModelQueryView {
        ModelQueryView {
            model: self.model@,
            statement: self.statement@,
            fields: crate::text::views(self.fields@),
        }
    }
}

/// The views of the reads in `queries`, in order.
pub open spec fn query_views(queries: Seq<ModelQuery>) -> Seq<ModelQueryView> {
    Seq::new(queries.len(), |i: int| queries[i]@)
}

/// The name that a selection below the model `m` asks for: it is a field
/// without alias, arguments, directives or a selection of its own, and
/// names `id` or a declared field.
pub open spec fn leaf_name(m: ModelDef, leaf: QuerySelection) -> Result<Seq<char>, QueryFailure> {
    match leaf {
        QuerySelection::Field(f) => if f.alias is Some {
            Err(QueryFailure::Alias)
        } else if f.arguments > 0 {
            Err(QueryFailure::Arguments)
        } else if f.directives > 0 {
            Err(QueryFailure::FieldDirectives)
        } else if f.selections@.len() > 0 {
            Err(QueryFailure::Nested)
        } else if f.name@ == "id"@ || declares(m.field_list(), f.name@) {
            Ok(f.name@)
        } else {
            Err(QueryFailure::UnknownField(f.name@))
        },
        _ => Err(QueryFailure::LeafNotField),
    }
}

/// The names that the selections below the model `m` ask for, in order; the
/// first selection that is refused decides the failure.
pub open spec fn leaf_names(m: ModelDef, leaves: Seq<QuerySelection>) -> Result<
    Seq<Seq<char>>,
    QueryFailure,
>
    decreases leaves.len(),
{
    if leaves.len() == 0 {
        Ok(Seq::empty())
    } else {
        match leaf_names(m, leaves.drop_last()) {
            Err(e) => Err(e),
            Ok(names) => match leaf_name(m, leaves.last()) {
                Err(e) => Err(e),
                Ok(name) => Ok(names.push(name)),
            },
        }
    }
}

/// The statement that reads the rows of `m` that the caller `uid` may see.
pub open spec fn model_read(m: ModelDef, uid: Option<i64>) -> StatementView {
    StatementView {
        sql: select_sql(m, condition_sql(m.scope(), uid, None)),
        params: Seq::empty(),
    }
}

/// The read that answers a top-level selection: it is a field without
/// alias, arguments or directives that names a model of the application.
pub open spec fn selection_plan(app: AppDef, uid: Option<i64>, sel: QuerySelection) -> Result<
    ModelQueryView,
    QueryFailure,
> {
    match sel {
        QuerySelection::Field(f) => if f.alias is Some {
            Err(QueryFailure::Alias)
        } else if f.arguments > 0 {
            Err(QueryFailure::Arguments)
        } else if f.directives > 0 {
            Err(QueryFailure::FieldDirectives)
        } else {
            match model_position(app.models@, f.name@) {
                None => Err(QueryFailure::UnknownModel(f.name@)),
                Some(i) => match leaf_names(app.models@[i], f.selections@) {
                    Err(e) => Err(e),
                    Ok(names) => Ok(
                        ModelQueryView {
                            model: f.name@,
                            statement: model_read(app.models@[i], uid),
                            fields: names,
                        },
                    ),
                },
            }
        },
        _ => Err(QueryFailure::NotField),
    }
}

/// The reads that answer a list of top-level selections, in order; the
/// first selection that is refused decides the failure.
pub open spec fn selections_plan(app: AppDef, uid: Option<i64>, sels: Seq<QuerySelection>) -> Result<
    Seq<ModelQueryView>,
    QueryFailure,
>
    decreases sels.len(),
{
    if sels.len() == 0 {
        Ok(Seq::empty())
    } else {
        match selections_plan(app, uid, sels.drop_last()) {
            Err(e) => Err(e),
            Ok(queries) => match selection_plan(app, uid, sels.last()) {
                Err(e) => Err(e),
                Ok(query) => Ok(queries.push(query)),
            },
        }
    }
}

/// The reads that one definition gives: one for each of its top-level
/// selections, for a `query` operation without variables and directives as
/// for a bare selection set.
pub open spec fn definition_plan(app: AppDef, uid: Option<i64>, def: QueryDefinition) -> Result<
    Seq<ModelQueryView>,
    QueryFailure,
> {
    match def {
        QueryDefinition::Fragment => Err(QueryFailure::Fragment),
        QueryDefinition::Query(q) => if q.variable_definitions > 0 {
            Err(QueryFailure::Variables)
        } else if q.directives > 0 {
            Err(QueryFailure::Directives)
        } else {
            selections_plan(app, uid, q.selections@)
        },
        QueryDefinition::SelectionSet(sels) => selections_plan(app, uid, sels@),
        QueryDefinition::Mutation => Err(QueryFailure::NotQuery),
        QueryDefinition::Subscription => Err(QueryFailure::NotQuery),
    }
}

/// The reads that the definitions of a document give, in order: each read
/// answers one top-level selection and gives one element of the answer's
/// `data`. The first definition that is refused decides the failure.
pub open spec fn document_plan(app: AppDef, uid: Option<i64>, defs: Seq<QueryDefinition>) -> Result<
    Seq<ModelQueryView>,
    QueryFailure,
>
    decreases defs.len(),
{
    if defs.len() == 0 {
        Ok(Seq::empty())
    } else {
        match document_plan(app, uid, defs.drop_last()) {
            Err(e) => Err(e),
            Ok(queries) => match definition_plan(app, uid, defs.last()) {
                Err(e) => Err(e),
                Ok(more) => Ok(queries + more),
            },
        }
    }
}

/// The fields of `row` under the names `fields`, in the order asked; a
/// name asked twice is returned once. A name that the row lacks is a
/// failure.
pub open spec fn projected(fields: Seq<Seq<char>>, row: Pairs) -> Result<Pairs, QueryFailure>
    decreases fields.len(),
{
    if fields.len() == 0 {
        Ok(Seq::empty())
    } else {
        match projected(fields.drop_last(), row) {
            Err(e) => Err(e),
            Ok(pairs) => match value_of(row, fields.last()) {
                None => Err(QueryFailure::UnknownField(fields.last())),
                Some(v) => Ok(put(pairs, fields.last(), v)),
            },
        }
    }
}

/// The JSON objects that render the projections of `rows`, in order; the
/// first row that lacks a field decides the failure.
pub open spec fn projections(fields: Seq<Seq<char>>, rows: Seq<Pairs>) -> Result<
    Seq<JsonView>,
    QueryFailure,
>
    decreases rows.len(),
{
    if rows.len() == 0 {
        Ok(Seq::empty())
    } else {
        match projections(fields, rows.drop_last()) {
            Err(e) => Err(e),
            Ok(objects) => match projected(fields, rows.last()) {
                Err(e) => Err(e),
                Ok(pairs) => Ok(objects.push(JsonView::Object(row_members(pairs)))),
            },
        }
    }
}

/// The answer to one read: the array of the projected rows.
pub open spec fn answer(fields: Seq<Seq<char>>, rows: Seq<Pairs>) -> Result<
    JsonView,
    QueryFailure,
> {
    match projections(fields, rows) {
        Err(e) => Err(e),
        Ok(objects) => Ok(JsonView::Array(objects)),
    }
}

/// The envelope of an answer: an object whose one member, `data`, holds
/// the answers to the reads in order, each an array of projected rows.
pub open spec fn envelope_of(data: Seq<JsonView>) -> JsonView {
    JsonView::Object(seq![("data"@, JsonView::Array(data))])
}

/// A `query` operation without variables and directives is answered as the
/// bare selection set of its selections is: the word `query` changes neither
/// the reads nor the shape of the answer.
pub proof fn lemma_query_as_selection_set(
    app: AppDef,
    uid: Option<i64>,
    q: QueryOperation,
    sels: Vec<QuerySelection>,
)
    requires
        q.variable_definitions == 0,
        q.directives == 0,
        sels@ == q.selections@,
    ensures
        definition_plan(app, uid, QueryDefinition::Query(q)) == definition_plan(
            app,
            uid,
            QueryDefinition::SelectionSet(sels),
        ),
{
}

/// Once a prefix of the selections is refused, every longer prefix is
/// refused the same way.
pub proof fn lemma_leaf_names_fails(m: ModelDef, leaves: Seq<QuerySelection>, n: int)
    requires
        0 <= n <= leaves.len(),
        leaf_names(m, leaves.take(n)) is Err,
    ensures
        leaf_names(m, leaves) == leaf_names(m, leaves.take(n)),
    decreases leaves.len() - n,
{
    if n == leaves.len() {
        assert(leaves.take(n) =~= leaves);
    } else {
        assert(leaves.take(n + 1).drop_last() =~= leaves.take(n));
        lemma_leaf_names_fails(m, leaves, n + 1);
    }
}

/// Once a prefix of the selections is refused, every longer prefix is
/// refused the same way.
pub proof fn lemma_selections_plan_fails(
    app: AppDef,
    uid: Option<i64>,
    sels: Seq<QuerySelection>,
    n: int,
)
    requires
        0 <= n <= sels.len(),
        selections_plan(app, uid, sels.take(n)) is Err,
    ensures
        selections_plan(app, uid, sels) == selections_plan(app, uid, sels.take(n)),
    decreases sels.len() - n,
{
    if n == sels.len() {
        assert(sels.take(n) =~= sels);
    } else {
        assert(sels.take(n + 1).drop_last() =~= sels.take(n));
        lemma_selections_plan_fails(app, uid, sels, n + 1);
    }
}

/// Once a prefix of the definitions is refused, every longer prefix is
/// refused the same way.
pub proof fn lemma_document_plan_fails(
    app: AppDef,
    uid: Option<i64>,
    defs: Seq<QueryDefinition>,
    n: int,
)
    requires
        0 <= n <= defs.len(),
        document_plan(app, uid, defs.take(n)) is Err,
    ensures
        document_plan(app, uid, defs) == document_plan(app, uid, defs.take(n)),
    decreases defs.len() - n,
{
    if n == defs.len() {
        assert(defs.take(n) =~= defs);
    } else {
        assert(defs.take(n + 1).drop_last() =~= defs.take(n));
        lemma_document_plan_fails(app, uid, defs, n + 1);
    }
}

/// Once a prefix of the names is missing from the row, every longer prefix
/// fails the same way.
pub proof fn lemma_projected_fails(fields: Seq<Seq<char>>, row: Pairs, n: int)
    requires
        0 <= n <= fields.len(),
        projected(fields.take(n), row) is Err,
    ensures
        projected(fields, row) == projected(fields.take(n), row),
    decreases fields.len() - n,
{
    if n == fields.len() {
        assert(fields.take(n) =~= fields);
    } else {
        assert(fields.take(n + 1).drop_last() =~= fields.take(n));
        lemma_projected_fails(fields, row, n + 1);
    }
}

/// Once a prefix of the rows cannot be projected, every longer prefix fails
/// the same way.
pub proof fn lemma_projections_fails(fields: Seq<Seq<char>>, rows: Seq<Pairs>, n: int)
    requires
        0 <= n <= rows.len(),
        projections(fields, rows.take(n)) is Err,
    ensures
        projections(fields, rows) == projections(fields, rows.take(n)),
    decreases rows.len() - n,
{
    if n == rows.len() {
        assert(rows.take(n) =~= rows);
    } else {
        assert(rows.take(n + 1).drop_last() =~= rows.take(n));
        lemma_projections_fails(fields, rows, n + 1);
    }
}

/// The names that the selections below the model `m` ask for.
fn plan_leaves(m: &ModelDef, leaves: &Vec<QuerySelection>) -> (r: Result<Vec<String>, QueryError>)
    ensures
        match r {
            Ok(names) => leaf_names(*m, leaves@) == Ok::<Seq<Seq<char>>, QueryFailure>(
                crate::text::views(names@),
            ),
            Err(e) => leaf_names(*m, leaves@) == Err::<Seq<Seq<char>>, QueryFailure>(e@),
        },
{
    let mut names: Vec<String> = Vec::new();
    let mut i: usize = 0;
    assert(leaves@.take(0) =~= Seq::<QuerySelection>::empty());
    assert(crate::text::views(names@) =~= Seq::<Seq<char>>::empty());
    while i < leaves.len()
        invariant
            i <= leaves.len(),
            leaf_names(*m, leaves@.take(i as int)) == Ok::<Seq<Seq<char>>, QueryFailure>(
                crate::text::views(names@),
            ),
        decreases leaves.len() - i,
    {
        proof {
            assert(leaves@.take(i + 1).drop_last() =~= leaves@.take(i as int));
            assert(leaves@.take(i + 1).last() == leaves@[i as int]);
        }
        let ghost before = crate::text::views(names@);
        match &leaves[i] {
            QuerySelection::Field(f) => {
                if f.alias.is_some() || f.arguments > 0 || f.directives > 0
                    || f.selections.len() > 0 {
                    proof {
                        lemma_leaf_names_fails(*m, leaves@, i as int + 1);
                    }
                    return Err(
                        if f.alias.is_some() {
                            QueryError::Alias
                        } else if f.arguments > 0 {
                            QueryError::Arguments
                        } else if f.directives > 0 {
                            QueryError::FieldDirectives
                        } else {
                            QueryError::Nested
                        },
                    );
                }
                if f.name.as_str().eq("id") || m.has_field(f.name.as_str()) {
                    names.push(f.name.clone());
                    assert(crate::text::views(names@) =~= before.push(f.name@));
                } else {
                    proof {
                        lemma_leaf_names_fails(*m, leaves@, i as int + 1);
                    }
                    return Err(QueryError::UnknownField(f.name.clone()));
                }
            },
            _ => {
                proof {
                    lemma_leaf_names_fails(*m, leaves@, i as int + 1);
                }
                return Err(QueryError::LeafNotField);
            },
        }
        i += 1;
    }
    assert(leaves@.take(leaves.len() as int) =~= leaves@);
    Ok(names)
}

/// The read that answers one top-level selection for the caller `uid`.
pub fn plan_selection(app: &AppDef, uid: Option<i64>, sel: &QuerySelection) -> (r: Result<
    ModelQuery,
    QueryError,
>)
    ensures
        match r {
            Ok(query) => selection_plan(*app, uid, *sel) == Ok::<ModelQueryView, QueryFailure>(
                query@,
            ),
            Err(e) => selection_plan(*app, uid, *sel) == Err::<ModelQueryView, QueryFailure>(e@),
        },
{
    match sel {
        QuerySelection::Field(f) => {
            if f.alias.is_some() {
                return Err(QueryError::Alias);
            }
            if f.arguments > 0 {
                return Err(QueryError::Arguments);
            }
            if f.directives > 0 {
                return Err(QueryError::FieldDirectives);
            }
            let model = match app.get_model(f.name.as_str()) {
                Some(m) => m,
                None => {
                    return Err(QueryError::UnknownModel(f.name.clone()));
                },
            };
            let fields = plan_leaves(model, &f.selections)?;
            let statement = model.select(uid, None);
            assert(statement@.params =~= Seq::<crate::storage::DbValueView>::empty());
            Ok(ModelQuery { model: f.name.clone(), statement, fields })
        },
        _ => Err(QueryError::NotField),
    }
}

/// Adds to `queries` the reads that answer a list of top-level selections.
fn plan_selections(
    app: &AppDef,
    uid: Option<i64>,
    sels: &Vec<QuerySelection>,
    queries: &mut Vec<ModelQuery>,
) -> (r: Result<(), QueryError>)
    ensures
        match r {
            Ok(_) => selections_plan(*app, uid, sels@) matches Ok(more) && query_views(
                final(queries)@,
            ) == query_views(old(queries)@) + more,
            Err(e) => selections_plan(*app, uid, sels@) == Err::<Seq<ModelQueryView>, QueryFailure>(
                e@,
            ),
        },
{
    let ghost before = query_views(queries@);
    let ghost mut more: Seq<ModelQueryView> = Seq::empty();
    let mut i: usize = 0;
    assert(sels@.take(0) =~= Seq::<QuerySelection>::empty());
    assert(query_views(queries@) =~= before + more);
    while i < sels.len()
        invariant
            i <= sels.len(),
            selections_plan(*app, uid, sels@.take(i as int)) == Ok::<
                Seq<ModelQueryView>,
                QueryFailure,
            >(more),
            query_views(queries@) == before + more,
        decreases sels.len() - i,
    {
        proof {
            assert(sels@.take(i + 1).drop_last() =~= sels@.take(i as int));
            assert(sels@.take(i + 1).last() == sels@[i as int]);
        }
        match plan_selection(app, uid, &sels[i]) {
            Ok(query) => {
                let ghost views_before = query_views(queries@);
                let ghost view = query@;
                queries.push(query);
                proof {
                    assert(query_views(queries@) =~= views_before.push(view));
                    assert(before + more.push(view) =~= (before + more).push(view));
                    more = more.push(view);
                }
            },
            Err(e) => {
                proof {
                    lemma_selections_plan_fails(*app, uid, sels@, i as int + 1);
                }
                return Err(e);
            },
        }
        i += 1;
    }
    assert(sels@.take(sels.len() as int) =~= sels@);
    Ok(())
}

impl QueryDocument {
    /// The reads that answer the document for the caller `uid`: one for
    /// each top-level selection, in order, whether the selection stands in a
    /// `query` operation or in a bare selection set. The answer to each read
    /// is one element of the answer's `data`. Nothing is read before the
    /// whole document is accepted.
    pub fn plan(&self, app: &AppDef, uid: Option<i64>) -> (r: Result<Vec<ModelQuery>, QueryError>)
        ensures
            match r {
                Ok(queries) => document_plan(*app, uid, self.definitions@) == Ok::<
                    Seq<ModelQueryView>,
                    QueryFailure,
                >(query_views(queries@)),
                Err(e) => document_plan(*app, uid, self.definitions@) == Err::<
                    Seq<ModelQueryView>,
                    QueryFailure,
                >(e@),
            },
    {
        let defs = &self.definitions;
        let mut queries: Vec<ModelQuery> = Vec::new();
        let mut i: usize = 0;
        assert(defs@.take(0) =~= Seq::<QueryDefinition>::empty());
        assert(query_views(queries@) =~= Seq::<ModelQueryView>::empty());
        while i < defs.len()
            invariant
                i <= defs.len(),
                defs@ == self.definitions@,
                document_plan(*app, uid, defs@.take(i as int)) == Ok::<
                    Seq<ModelQueryView>,
                    QueryFailure,
                >(query_views(queries@)),
            decreases defs.len() - i,
        {
            proof {
                assert(defs@.take(i + 1).drop_last() =~= defs@.take(i as int));
                assert(defs@.take(i + 1).last() == defs@[i as int]);
            }
            let outcome: Result<(), QueryError> = match &defs[i] {
                QueryDefinition::Fragment => Err(QueryError::Fragment),
                QueryDefinition::Query(q) => {
                    if q.variable_definitions > 0 {
                        Err(QueryError::Variables)
                    } else if q.directives > 0 {
                        Err(QueryError::Directives)
                    } else {
                        plan_selections(app, uid, &q.selections, &mut queries)
                    }
                },
                QueryDefinition::SelectionSet(sels) => plan_selections(
                    app,
                    uid,
                    sels,
                    &mut queries,
                ),
                QueryDefinition::Mutation => Err(QueryError::NotQuery),
                QueryDefinition::Subscription => Err(QueryError::NotQuery),
            };
            if let Err(e) = outcome {
                proof {
                    lemma_document_plan_fails(*app, uid, defs@, i as int + 1);
                }
                return Err(e);
            }
            i += 1;
        }
        assert(defs@.take(defs.len() as int) =~= defs@);
        Ok(queries)
    }
}

impl ModelQuery {
    /// The fields of `row` that the read asks for.
    pub fn project_row(&self, row: &Row) -> (r: Result<Row, QueryError>)
        ensures
            match r {
                Ok(out) => projected(self@.fields, row@) == Ok::<Pairs, QueryFailure>(out@),
                Err(e) => projected(self@.fields, row@) == Err::<Pairs, QueryFailure>(e@),
            },
    {
        let ghost names = self@.fields;
        let mut out = Row::new();
        let mut i: usize = 0;
        assert(names.take(0) =~= Seq::<Seq<char>>::empty());
        while i < self.fields.len()
            invariant
                i <= self.fields.len(),
                names == crate::text::views(self.fields@),
                projected(names.take(i as int), row@) == Ok::<Pairs, QueryFailure>(out@),
            decreases self.fields.len() - i,
        {
            proof {
                assert(names.take(i + 1).drop_last() =~= names.take(i as int));
                assert(names.take(i + 1).last() == self.fields@[i as int]@);
            }
            let name = self.fields[i].as_str();
            match row.get(name) {
                Some(v) => {
                    out.set(name, v.clone());
                },
                None => {
                    proof {
                        lemma_projected_fails(names, row@, i as int + 1);
                    }
                    return Err(QueryError::UnknownField(name.to_owned()));
                },
            }
            i += 1;
        }
        assert(names.take(self.fields.len() as int) =~= names);
        Ok(out)
    }

    /// The answer to the read, given the rows that its statement returned:
    /// the array of the projected rows.
    pub fn project(&self, rows: &Vec<Row>) -> (r: Result<Json, QueryError>)
        ensures
            match r {
                Ok(json) => answer(self@.fields, row_views(rows@)) == Ok::<JsonView, QueryFailure>(
                    json@,
                ),
                Err(e) => answer(self@.fields, row_views(rows@)) == Err::<JsonView, QueryFailure>(
                    e@,
                ),
            },
    {
        let ghost all = row_views(rows@);
        let mut objects: Vec<Json> = Vec::new();
        let mut i: usize = 0;
        assert(all.take(0) =~= Seq::<Pairs>::empty());
        assert(json_views(objects@) =~= Seq::<JsonView>::empty());
        while i < rows.len()
            invariant
                i <= rows.len(),
                all == row_views(rows@),
                projections(self@.fields, all.take(i as int)) == Ok::<Seq<JsonView>, QueryFailure>(
                    json_views(objects@),
                ),
            decreases rows.len() - i,
        {
            proof {
                assert(all.take(i + 1).drop_last() =~= all.take(i as int));
                assert(all.take(i + 1).last() == rows@[i as int]@);
            }
            match self.project_row(&rows[i]) {
                Ok(row) => {
                    let ghost before = json_views(objects@);
                    let object = row.to_value();
                    objects.push(object);
                    assert(json_views(objects@) =~= before.push(object@));
                },
                Err(e) => {
                    proof {
                        lemma_projections_fails(self@.fields, all, i as int + 1);
                    }
                    return Err(e);
                },
            }
            i += 1;
        }
        assert(all.take(rows.len() as int) =~= all);
        Ok(Json::array(objects))
    }
}

/// The envelope of an answer.
pub fn envelope(data: Vec<Json>) -> (r: Json)
    ensures
        r@ == envelope_of(json_views(data@)),
{
    let ghost elements = json_views(data@);
    let array = Json::array(data);
    let mut members: Vec<(String, Json)> = Vec::new();
    members.push(("data".to_owned(), array));
    let r = Json::Object(members);
    assert(r@->Object_0 =~= seq![("data"@, JsonView::Array(elements))]);
    r
}

} // verus!
