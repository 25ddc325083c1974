//! Bringing the tables of an application's storage up to a new definition.

use vstd::prelude::*;
use vstd::string::*;
use crate::error::ErrorKind;
use crate::schema::{model_position, AppDef, FieldDef, ModelDef};
use crate::storage::{
    added_columns, create_table_sql, statement_texts, Statement,
};
use crate::text::{contains_text, has_prefix, views};

verus! {

/// The largest definition text that is read, in bytes.
pub const APP_YAML_MAX_SIZE: usize = 65536;

/// Whether a definition text of `size` bytes is too large to be read.
pub fn definition_too_large(size: u64) -> (r: bool)
    ensures
        r == (size > APP_YAML_MAX_SIZE),
{
    size > 65536
}

/// Whether `f` is a required text field named `name` and described by
/// `description`.
pub open spec fn is_text_field(f: FieldDef, name: Seq<char>, description: Seq<char>) -> bool {
    f matches FieldDef::String(d) && FieldDef::described(name, description, d)
}

/// Whether `m` is the model of the users of an application, which every
/// application has beside the models it declares.
pub open spec fn is_user_model(m: ModelDef) -> bool {
    &&& m.name@ == "__oct_user"@
    &&& m.description matches Some(text) && text@ == "User model"@
    &&& m.visibility_scope is None
    &&& m.fields matches Some(fields) && {
        &&& fields@.len() == 4
        &&& is_text_field(fields@[0], "name"@, "user name"@)
        &&& is_text_field(fields@[1], "email"@, "user email"@)
        &&& is_text_field(fields@[2], "password"@, "user password"@)
        &&& is_text_field(fields@[3], "token"@, "auth token"@)
    }
}

impl ModelDef {
    /// The model of the users of an application.
    pub fn make_user_model() -> (r: ModelDef)
        ensures
            is_user_model(r),
    {
        let mut fields: Vec<FieldDef> = Vec::new();
        fields.push(FieldDef::make_string("name", "user name"));
        fields.push(FieldDef::make_string("email", "user email"));
        fields.push(FieldDef::make_string("password", "user password"));
        fields.push(FieldDef::make_string("token", "auth token"));
        ModelDef {
            name: "__oct_user".to_owned(),
            description: Some("User model".to_owned()),
            fields: Some(fields),
            visibility_scope: None,
        }
    }
}

/// Why the tables cannot be brought up to a definition.
#[derive(Debug, PartialEq, Eq)]
pub enum SyncError {
    /// A table exists for this model, but no earlier definition of the
    /// model is at hand to compare with.
    NoPreviousModel(String),
}

/// What a [`SyncError`] stands for.
pub enum SyncFailure {
    NoPreviousModel(Seq<char>),
}

impl View for SyncError {
    type V = SyncFailure;

    open spec fn view(&self) -> SyncFailure {
        match self {
            SyncError::NoPreviousModel(name) => SyncFailure::NoPreviousModel(name@),
        }
    }
}

impl SyncError {
    /// What the failure reads as.
    pub fn message(&self) -> (r: String)
        ensures
            r@ == (match self@ {
                SyncFailure::NoPreviousModel(name) => "No earlier definition of model "@ + name,
            }),
    {
        match self {
            SyncError::NoPreviousModel(name) => {
                let mut out = "No earlier definition of model ".to_owned();
                out.append(name.as_str());
                out
            },
        }
    }

    /// A model without an earlier definition is not found.
    pub fn kind(&self) -> (r: ErrorKind)
        ensures
            r == ErrorKind::NotFound,
    {
        ErrorKind::NotFound
    }
}

/// Whether a model is reserved to the engine: its name begins with `__oct`.
pub open spec fn is_internal(name: Seq<char>) -> bool {
    "__oct"@.is_prefix_of(name)
}

/// The statements that bring the table of `m` up to date. A model without
/// a table gets one. A reserved model that has a table is left alone. Any
/// other model gets a column for each field that its earlier definition
/// lacks, and it is a failure if there is no earlier definition.
pub open spec fn model_sync(m: ModelDef, tables: Seq<Seq<char>>, old: Option<AppDef>) -> Result<
    Seq<Seq<char>>,
    SyncFailure,
> {
    if !tables.contains(m.name@) {
        Ok(seq![create_table_sql(m)])
    } else if is_internal(m.name@) {
        Ok(Seq::empty())
    } else {
        match old {
            None => Err(SyncFailure::NoPreviousModel(m.name@)),
            Some(def) => match model_position(def.models@, m.name@) {
                None => Err(SyncFailure::NoPreviousModel(m.name@)),
                Some(i) => Ok(added_columns(m, m.field_list(), def.models@[i].field_list())),
            },
        }
    }
}

/// The statements that bring the tables of `models` up to date, model by
/// model; the first model that fails decides the failure.
pub open spec fn models_sync(models: Seq<ModelDef>, tables: Seq<Seq<char>>, old: Option<AppDef>) -> Result<
    Seq<Seq<char>>,
    SyncFailure,
>
    decreases models.len(),
{
    if models.len() == 0 {
        Ok(Seq::empty())
    } else {
        match models_sync(models.drop_last(), tables, old) {
            Err(e) => Err(e),
            Ok(done) => match model_sync(models.last(), tables, old) {
                Err(e) => Err(e),
                Ok(more) => Ok(done + more),
            },
        }
    }
}

/// Once a prefix of the models fails, every longer prefix fails the same
/// way.
pub proof fn lemma_models_sync_fails(
    models: Seq<ModelDef>,
    tables: Seq<Seq<char>>,
    old: Option<AppDef>,
    n: int,
)
    requires
        0 <= n <= models.len(),
        models_sync(models.take(n), tables, old) is Err,
    ensures
        models_sync(models, tables, old) == models_sync(models.take(n), tables, old),
    decreases models.len() - n,
{
    if n == models.len() {
        assert(models.take(n) =~= models);
    } else {
        assert(models.take(n + 1).drop_last() =~= models.take(n));
        lemma_models_sync_fails(models, tables, old, n + 1);
    }
}

/// Adds to `out` the statements that bring the table of `model` up to
/// date.
fn sync_model(
    model: &ModelDef,
    tables: &Vec<String>,
    previous: &Option<AppDef>,
    out: &mut Vec<Statement>,
) -> (r: Result<(), SyncError>)
    ensures
        match r {
            Ok(_) => model_sync(*model, views(tables@), *previous) matches Ok(more) && statement_texts(
                final(out)@,
            ) == statement_texts(old(out)@) + more,
            Err(e) => model_sync(*model, views(tables@), *previous) == Err::<
                Seq<Seq<char>>,
                SyncFailure,
            >(e@),
        },
{
    let ghost before = statement_texts(out@);
    if !contains_text(tables, model.name.as_str()) {
        let statement = model.create_table();
        out.push(statement);
        assert(statement_texts(out@) =~= before + seq![create_table_sql(*model)]);
        return Ok(());
    }
    if has_prefix(model.name.as_str(), "__oct") {
        assert(statement_texts(out@) =~= before + Seq::<Seq<char>>::empty());
        return Ok(());
    }
    let earlier = match previous {
        Some(def) => def.get_model(model.name.as_str()),
        None => None,
    };
    match earlier {
        Some(old_model) => {
            let mut more = model.alter_table(old_model);
            let ghost texts = statement_texts(more@);
            out.append(&mut more);
            assert(statement_texts(out@) =~= before + texts);
            Ok(())
        },
        None => Err(SyncError::NoPreviousModel(model.name.clone())),
    }
}

/// The statements that bring the storage of an application from the
/// definition `old` to the definition `new`, given the names of the tables
/// that exist: first for the model of the users, then for each declared
/// model in order. Nothing is to be run if any model fails.
pub fn sync_models(tables: &Vec<String>, old: &Option<AppDef>, new: &AppDef) -> (r: Result<
    Vec<Statement>,
    SyncError,
>)
    ensures
        exists|user: ModelDef|
            is_user_model(user) && match r {
                Ok(statements) => models_sync(seq![user] + new.models@, views(tables@), *old)
                    == Ok::<Seq<Seq<char>>, SyncFailure>(statement_texts(statements@)),
                Err(e) => models_sync(seq![user] + new.models@, views(tables@), *old) == Err::<
                    Seq<Seq<char>>,
                    SyncFailure,
                >(e@),
            },
{
    let user_model = ModelDef::make_user_model();
    let ghost all = seq![user_model] + new.models@;
    let mut out: Vec<Statement> = Vec::new();
    assert(all.take(0) =~= Seq::<ModelDef>::empty());
    assert(statement_texts(out@) =~= Seq::<Seq<char>>::empty());
    proof {
        assert(all.take(1).drop_last() =~= all.take(0));
        assert(all.take(1).last() == user_model);
        assert(models_sync(all.take(0), views(tables@), *old) == Ok::<Seq<Seq<char>>, SyncFailure>(
            Seq::empty(),
        ));
    }
    match sync_model(&user_model, tables, old, &mut out) {
        Ok(_) => {
            proof {
                let more = model_sync(user_model, views(tables@), *old)->Ok_0;
                assert(Seq::<Seq<char>>::empty() + more =~= more);
                assert(statement_texts(out@) =~= more);
            }
        },
        Err(e) => {
            proof {
                assert(models_sync(all.take(1), views(tables@), *old) is Err);
                lemma_models_sync_fails(all, views(tables@), *old, 1);
            }
            return Err(e);
        },
    }
    let mut i: usize = 0;
    while i < new.models.len()
        invariant
            i <= new.models.len(),
            all == seq![user_model] + new.models@,
            is_user_model(user_model),
            models_sync(all.take(i + 1), views(tables@), *old) == Ok::<
                Seq<Seq<char>>,
                SyncFailure,
            >(statement_texts(out@)),
        decreases new.models.len() - i,
    {
        proof {
            assert(all.take(i + 2).drop_last() =~= all.take(i + 1));
            assert(all.take(i + 2).last() == new.models@[i as int]);
        }
        match sync_model(&new.models[i], tables, old, &mut out) {
            Ok(_) => {},
            Err(e) => {
                proof {
                    lemma_models_sync_fails(all, views(tables@), *old, i as int + 2);
                }
                return Err(e);
            },
        }
        i += 1;
    }
    assert(all.take(new.models.len() + 1) =~= all);
    Ok(out)
}

/// Whether the change from `old` to `new` can be made. Every change is
/// accepted: what cannot be migrated is left as it is.
pub fn check_migration(old: &Option<AppDef>, new: &AppDef) -> (r: Result<(), SyncError>)
    ensures
        r is Ok,
{
    Ok(())
}

/// Bringing a table up to the definition that it was brought up to before
/// changes nothing.
pub proof fn lemma_sync_again(m: ModelDef, tables: Seq<Seq<char>>, def: AppDef, i: int)
    requires
        tables.contains(m.name@),
        model_position(def.models@, m.name@) == Some(i),
        def.models@[i] == m,
    ensures
        model_sync(m, tables, Some(def)) == Ok::<Seq<Seq<char>>, SyncFailure>(Seq::empty()),
{
    crate::storage::lemma_migrate_idempotent(m);
}

} // verus!
