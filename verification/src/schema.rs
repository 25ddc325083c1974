//! The typed description of an application: its models and their fields, its
//! endpoints and their access rules, and the validation of all of them.

use vstd::prelude::*;
use vstd::string::*;
use crate::error::SchemaError;
use crate::validate::{
    and_then, description_check, first_failure, id_check, lemma_first_failure_at, path_check,
    text_check, validate_api_path, validate_description, validate_file_path, validate_id,
    validate_text, MAX_RESPONSE,
};

verus! {

/// The schema version that this engine reads.
pub open spec fn supported_version() -> Seq<char> {
    "v0.0.1"@
}

/// What every field carries: its name, a description and whether it may be
/// left out.
#[derive(Debug, Clone, PartialEq, Eq)]
pub struct SimpleDesc {
    pub name: String,
    pub description: Option<String>,
    pub optional: Option<bool>,
}

/// A date-time field, which may default to the time of creation.
#[derive(Debug, Clone, PartialEq, Eq)]
pub struct DateTimeDesc {
    pub name: String,
    pub description: Option<String>,
    pub optional: Option<bool>,
    pub default_now: Option<bool>,
}

/// A field that refers to a row of the model named `target`.
#[derive(Debug, Clone, PartialEq, Eq)]
pub struct ReferenceDesc {
    pub name: String,
    pub description: Option<String>,
    pub target: String,
    pub optional: Option<bool>,
}

/// One typed, named attribute of a model.
#[derive(Debug, Clone, PartialEq, Eq)]
pub enum FieldDef {
    String(SimpleDesc),
    Integer(SimpleDesc),
    Boolean(SimpleDesc),
    Float(SimpleDesc),
    DateTime(DateTimeDesc),
    User(SimpleDesc),
    Reference(ReferenceDesc),
}

/// What a matching access rule decides.
#[derive(Debug, Clone, Copy, PartialEq, Eq, Structural)]
pub enum ApiAccessRuleAction {
    Allow,
    Deny,
}

/// A request method that an access rule can name.
#[derive(Debug, Clone, Copy, PartialEq, Eq, Structural)]
pub enum ApiAccessMethod {
    Get,
    Post,
    Put,
    Delete,
    Patch,
}

/// One entry of an ordered access policy. A rule without a method matches
/// any method; a rule without a role matches any caller.
#[derive(Debug, Clone, PartialEq, Eq)]
pub struct ApiAccessRuleDef {
    pub action: ApiAccessRuleAction,
    pub method: Option<ApiAccessMethod>,
    pub role: Option<String>,
}

/// An endpoint that answers with a fixed text.
#[derive(Debug, Clone, PartialEq, Eq)]
pub struct StringApiDesc {
    pub name: String,
    pub path: String,
    pub description: Option<String>,
    pub response: String,
    pub access: Option<Vec<ApiAccessRuleDef>>,
}

/// An endpoint that serves a local file.
#[derive(Debug, Clone, PartialEq, Eq)]
pub struct StaticApiDesc {
    pub name: String,
    pub path: String,
    pub description: Option<String>,
    pub localfile: String,
    pub access: Option<Vec<ApiAccessRuleDef>>,
}

/// An endpoint that exposes the rows of a model.
#[derive(Debug, Clone, PartialEq, Eq)]
pub struct ModelApiDesc {
    pub name: String,
    pub path: String,
    pub description: Option<String>,
    pub model: String,
    pub access: Option<Vec<ApiAccessRuleDef>>,
}

/// An endpoint that answers queries over all models.
#[derive(Debug, Clone, PartialEq, Eq)]
pub struct GraphQLApiDesc {
    pub name: String,
    pub description: Option<String>,
    pub path: String,
    pub access: Option<Vec<ApiAccessRuleDef>>,
}

/// Which rows of a model a caller other than the administrator may see.
#[derive(Debug, Clone, Copy, PartialEq, Eq, Structural)]
pub enum ModelVisibilityScope {
    Everyone,
    Owner,
}

/// A named record schema, stored as one table.
#[derive(Debug, Clone, PartialEq, Eq)]
pub struct ModelDef {
    pub name: String,
    pub description: Option<String>,
    pub fields: Option<Vec<FieldDef>>,
    pub visibility_scope: Option<ModelVisibilityScope>,
}

/// One entry of an application's API surface.
#[derive(Debug, Clone, PartialEq, Eq)]
pub enum ApiEndpoint {
    String(StringApiDesc),
    StaticFile(StaticApiDesc),
    Model(ModelApiDesc),
    GraphQL(GraphQLApiDesc),
}

/// The default access policy of an application: one action for every
/// request, or a list of rules.
#[derive(Debug, Clone, PartialEq, Eq)]
pub enum ApiDefAccessDef {
    Action(ApiAccessRuleAction),
    Rules(Vec<ApiAccessRuleDef>),
}

/// The endpoints of an application and its default access policy.
#[derive(Debug, Clone, PartialEq, Eq)]
pub struct ApiDef {
    pub default_access: Option<ApiDefAccessDef>,
    pub endpoints: Vec<ApiEndpoint>,
}

/// The version of the schema language that a definition is written in.
#[derive(Debug, Clone, PartialEq, Eq)]
pub struct AppMeta {
    pub schema: String,
}

/// The full description of one application.
#[derive(Debug, Clone, PartialEq, Eq)]
pub struct AppDef {
    pub name: String,
    pub models: Vec<ModelDef>,
    pub api: ApiDef,
    pub meta: AppMeta,
}

impl SimpleDesc {
    /// The outcome of validation: the name, then the description.
    pub open spec fn check(&self) -> Result<(), SchemaError> {
        and_then(id_check(self.name@), description_check(self.description))
    }

    pub fn validate(&self) -> (r: Result<(), SchemaError>)
        ensures
            r == self.check(),
    {
        validate_id(self.name.as_str())?;
        validate_description(&self.description)
    }
}

impl DateTimeDesc {
    /// The outcome of validation: the name, then the description.
    pub open spec fn check(&self) -> Result<(), SchemaError> {
        and_then(id_check(self.name@), description_check(self.description))
    }

    pub fn validate(&self) -> (r: Result<(), SchemaError>)
        ensures
            r == self.check(),
    {
        validate_id(self.name.as_str())?;
        validate_description(&self.description)
    }
}

impl ReferenceDesc {
    /// The outcome of validation: the name, the target, then the description.
    pub open spec fn check(&self) -> Result<(), SchemaError> {
        and_then(
            id_check(self.name@),
            and_then(id_check(self.target@), description_check(self.description)),
        )
    }

    pub fn validate(&self) -> (r: Result<(), SchemaError>)
        ensures
            r == self.check(),
    {
        validate_id(self.name.as_str())?;
        validate_id(self.target.as_str())?;
        validate_description(&self.description)
    }
}

impl FieldDef {
    /// The field's name.
    pub open spec fn name_view(&self) -> Seq<char> {
        match self {
            FieldDef::String(d) => d.name@,
            FieldDef::Integer(d) => d.name@,
            FieldDef::Boolean(d) => d.name@,
            FieldDef::Float(d) => d.name@,
            FieldDef::DateTime(d) => d.name@,
            FieldDef::User(d) => d.name@,
            FieldDef::Reference(d) => d.name@,
        }
    }

    /// What the definition says of leaving the field out, if anything.
    pub open spec fn optional_flag(&self) -> Option<bool> {
        match self {
            FieldDef::String(d) => d.optional,
            FieldDef::Integer(d) => d.optional,
            FieldDef::Boolean(d) => d.optional,
            FieldDef::Float(d) => d.optional,
            FieldDef::DateTime(d) => d.optional,
            FieldDef::User(d) => d.optional,
            FieldDef::Reference(d) => d.optional,
        }
    }

    /// Whether a row may leave the field out. A field is required unless its
    /// definition says otherwise.
    pub open spec fn optional(&self) -> bool {
        self.optional_flag() == Some(true)
    }

    /// The outcome of validation, by the rules of the field's variant.
    pub open spec fn check(&self) -> Result<(), SchemaError> {
        match self {
            FieldDef::String(d) => d.check(),
            FieldDef::Integer(d) => d.check(),
            FieldDef::Boolean(d) => d.check(),
            FieldDef::Float(d) => d.check(),
            FieldDef::DateTime(d) => d.check(),
            FieldDef::User(d) => d.check(),
            FieldDef::Reference(d) => d.check(),
        }
    }

    /// The field's name.
    pub fn name(&self) -> (r: &str)
        ensures
            r@ == self.name_view(),
    {
        match self {
            FieldDef::String(d) => d.name.as_str(),
            FieldDef::Integer(d) => d.name.as_str(),
            FieldDef::Float(d) => d.name.as_str(),
            FieldDef::Boolean(d) => d.name.as_str(),
            FieldDef::DateTime(d) => d.name.as_str(),
            FieldDef::User(d) => d.name.as_str(),
            FieldDef::Reference(d) => d.name.as_str(),
        }
    }

    /// Whether a row may leave the field out.
    pub fn is_optional(&self) -> (r: bool)
        ensures
            r == self.optional(),
    {
        let optional = match self {
            FieldDef::String(d) => d.optional,
            FieldDef::Integer(d) => d.optional,
            FieldDef::Float(d) => d.optional,
            FieldDef::Boolean(d) => d.optional,
            FieldDef::DateTime(d) => d.optional,
            FieldDef::User(d) => d.optional,
            FieldDef::Reference(d) => d.optional,
        };
        match optional {
            Some(flag) => flag,
            None => false,
        }
    }

    pub fn validate(&self) -> (r: Result<(), SchemaError>)
        ensures
            r == self.check(),
    {
        match self {
            FieldDef::String(d) => d.validate(),
            FieldDef::Integer(d) => d.validate(),
            FieldDef::Boolean(d) => d.validate(),
            FieldDef::Float(d) => d.validate(),
            FieldDef::User(d) => d.validate(),
            FieldDef::DateTime(d) => d.validate(),
            FieldDef::Reference(d) => d.validate(),
        }
    }

    /// What the builders give every field: the name, the description, and
    /// nothing said of leaving it out.
    pub open spec fn described(name: Seq<char>, desc: Seq<char>, d: SimpleDesc) -> bool {
        &&& d.name@ == name
        &&& d.description matches Some(text)
        &&& text@ == desc
        &&& d.optional is None
    }

    fn simple(name: &str, desc: &str) -> (d: SimpleDesc)
        ensures
            Self::described(name@, desc@, d),
    {
        SimpleDesc { name: name.to_owned(), description: Some(desc.to_owned()), optional: None }
    }

    /// A required text field.
    pub fn make_string(name: &str, desc: &str) -> (r: FieldDef)
        ensures
            r matches FieldDef::String(d) && Self::described(name@, desc@, d),
    {
        FieldDef::String(Self::simple(name, desc))
    }

    /// A required integer field.
    pub fn make_integer(name: &str, desc: &str) -> (r: FieldDef)
        ensures
            r matches FieldDef::Integer(d) && Self::described(name@, desc@, d),
    {
        FieldDef::Integer(Self::simple(name, desc))
    }

    /// A required boolean field.
    pub fn make_boolean(name: &str, desc: &str) -> (r: FieldDef)
        ensures
            r matches FieldDef::Boolean(d) && Self::described(name@, desc@, d),
    {
        FieldDef::Boolean(Self::simple(name, desc))
    }

    /// A required floating-point field.
    pub fn make_float(name: &str, desc: &str) -> (r: FieldDef)
        ensures
            r matches FieldDef::Float(d) && Self::described(name@, desc@, d),
    {
        FieldDef::Float(Self::simple(name, desc))
    }

    /// A required date-time field without a default.
    pub fn make_datetime(name: &str, desc: &str) -> (r: FieldDef)
        ensures
            r matches FieldDef::DateTime(d) && d.name@ == name@ && d.optional is None
                && d.default_now is None && (d.description matches Some(text) && text@ == desc@),
    {
        FieldDef::DateTime(
            DateTimeDesc {
                name: name.to_owned(),
                description: Some(desc.to_owned()),
                optional: None,
                default_now: None,
            },
        )
    }

    /// A required field that holds a user's id.
    pub fn make_user(name: &str, desc: &str) -> (r: FieldDef)
        ensures
            r matches FieldDef::User(d) && Self::described(name@, desc@, d),
    {
        FieldDef::User(Self::simple(name, desc))
    }

    /// A required field that refers to a row of the model `target`.
    pub fn make_reference(name: &str, desc: &str, target: &str) -> (r: FieldDef)
        ensures
            r matches FieldDef::Reference(d) && d.name@ == name@ && d.optional is None
                && d.target@ == target@ && (d.description matches Some(text) && text@ == desc@),
    {
        FieldDef::Reference(
            ReferenceDesc {
                name: name.to_owned(),
                description: Some(desc.to_owned()),
                target: target.to_owned(),
                optional: None,
            },
        )
    }
}

impl ApiAccessRuleAction {
    /// Whether the action lets the request through.
    pub fn allowed(&self) -> (r: bool)
        ensures
            r == (*self == ApiAccessRuleAction::Allow),
    {
        match self {
            ApiAccessRuleAction::Allow => true,
            ApiAccessRuleAction::Deny => false,
        }
    }
}

/// The action of a rule that names none.
pub fn default_action() -> (r: ApiAccessRuleAction)
    ensures
        r == ApiAccessRuleAction::Allow,
{
    ApiAccessRuleAction::Allow
}

impl ApiAccessMethod {
    /// The method's name as access rules write it, in lower case.
    pub open spec fn text(&self) -> Seq<char> {
        match self {
            ApiAccessMethod::Get => "get"@,
            ApiAccessMethod::Post => "post"@,
            ApiAccessMethod::Put => "put"@,
            ApiAccessMethod::Delete => "delete"@,
            ApiAccessMethod::Patch => "patch"@,
        }
    }

    /// The method's name as access rules write it, in lower case.
    pub fn as_str(&self) -> (r: &'static str)
        ensures
            r@ == self.text(),
    {
        match self {
            ApiAccessMethod::Get => "get",
            ApiAccessMethod::Post => "post",
            ApiAccessMethod::Put => "put",
            ApiAccessMethod::Delete => "delete",
            ApiAccessMethod::Patch => "patch",
        }
    }
}

impl ApiAccessRuleDef {
    /// The outcome of validation: a role, where one is named, is an
    /// identifier.
    pub open spec fn check(&self) -> Result<(), SchemaError> {
        match self.role {
            Some(role) => id_check(role@),
            None => Ok(()),
        }
    }

    pub fn validate(&self) -> (r: Result<(), SchemaError>)
        ensures
            r == self.check(),
    {
        match &self.role {
            Some(role) => validate_id(role.as_str()),
            None => Ok(()),
        }
    }

    /// The rule that gives `action` to every request.
    pub fn simple(action: ApiAccessRuleAction) -> (r: ApiAccessRuleDef)
        ensures
            r.action == action,
            r.method is None,
            r.role is None,
    {
        ApiAccessRuleDef { action, method: None, role: None }
    }

    /// The rule that allows every caller to read.
    pub fn allow_aonnymous_get() -> (r: ApiAccessRuleDef)
        ensures
            r.action == ApiAccessRuleAction::Allow,
            r.method == Some(ApiAccessMethod::Get),
            r.role is None,
    {
        ApiAccessRuleDef {
            action: ApiAccessRuleAction::Allow,
            role: None,
            method: Some(ApiAccessMethod::Get),
        }
    }

    /// A copy of the rule.
    pub fn duplicate(&self) -> (r: ApiAccessRuleDef)
        ensures
            r == *self,
    {
        let role = match &self.role {
            Some(role) => Some(role.clone()),
            None => None,
        };
        ApiAccessRuleDef { action: self.action, method: self.method, role }
    }
}

/// The outcomes of validating each rule of a list, in order.
pub open spec fn rule_outcomes(rules: Seq<ApiAccessRuleDef>) -> Seq<Result<(), SchemaError>> {
    Seq::new(rules.len(), |i: int| rules[i].check())
}

/// The outcome of validating the access rules of an endpoint, where it has
/// any.
pub open spec fn access_check(access: Option<Vec<ApiAccessRuleDef>>) -> Result<(), SchemaError> {
    match access {
        Some(rules) => first_failure(rule_outcomes(rules@)),
        None => Ok(()),
    }
}

/// Validates the rules of a list in order and stops at the first failure.
pub fn validate_rules(rules: &Vec<ApiAccessRuleDef>) -> (r: Result<(), SchemaError>)
    ensures
        r == first_failure(rule_outcomes(rules@)),
{
    let mut i: usize = 0;
    while i < rules.len()
        invariant
            i <= rules.len(),
            forall|j: int| 0 <= j < i ==> (#[trigger] rule_outcomes(rules@)[j]) is Ok,
        decreases rules.len() - i,
    {
        let outcome = rules[i].validate();
        if outcome.is_err() {
            proof {
                assert(rule_outcomes(rules@)[i as int] == outcome);
                lemma_first_failure_at(rule_outcomes(rules@), i as int);
            }
            return outcome;
        }
        i += 1;
    }
    Ok(())
}

/// Validates the access rules of an endpoint, where it has any.
pub fn validate_access(access: &Option<Vec<ApiAccessRuleDef>>) -> (r: Result<(), SchemaError>)
    ensures
        r == access_check(*access),
{
    match access {
        Some(rules) => validate_rules(rules),
        None => Ok(()),
    }
}

impl StringApiDesc {
    /// The outcome of validation: the name, the path, the description, the
    /// response, then the access rules.
    pub open spec fn check(&self) -> Result<(), SchemaError> {
        and_then(
            id_check(self.name@),
            and_then(
                path_check(self.path@),
                and_then(
                    description_check(self.description),
                    and_then(
                        text_check(self.response@, MAX_RESPONSE as nat),
                        access_check(self.access),
                    ),
                ),
            ),
        )
    }

    pub fn validate(&self) -> (r: Result<(), SchemaError>)
        ensures
            r == self.check(),
    {
        validate_id(self.name.as_str())?;
        validate_api_path(self.path.as_str())?;
        validate_description(&self.description)?;
        validate_text(self.response.as_str(), MAX_RESPONSE)?;
        validate_access(&self.access)
    }
}

impl StaticApiDesc {
    /// The outcome of validation: the name, the path, the description, the
    /// file's path, then the access rules.
    pub open spec fn check(&self) -> Result<(), SchemaError> {
        and_then(
            id_check(self.name@),
            and_then(
                path_check(self.path@),
                and_then(
                    description_check(self.description),
                    and_then(path_check(self.localfile@), access_check(self.access)),
                ),
            ),
        )
    }

    pub fn validate(&self) -> (r: Result<(), SchemaError>)
        ensures
            r == self.check(),
    {
        validate_id(self.name.as_str())?;
        validate_api_path(self.path.as_str())?;
        validate_description(&self.description)?;
        validate_file_path(self.localfile.as_str())?;
        validate_access(&self.access)
    }
}

impl ModelApiDesc {
    /// The outcome of validation: the name, the path, the description, the
    /// model's name, then the access rules.
    pub open spec fn check(&self) -> Result<(), SchemaError> {
        and_then(
            id_check(self.name@),
            and_then(
                path_check(self.path@),
                and_then(
                    description_check(self.description),
                    and_then(id_check(self.model@), access_check(self.access)),
                ),
            ),
        )
    }

    pub fn validate(&self) -> (r: Result<(), SchemaError>)
        ensures
            r == self.check(),
    {
        validate_id(self.name.as_str())?;
        validate_api_path(self.path.as_str())?;
        validate_description(&self.description)?;
        validate_id(self.model.as_str())?;
        validate_access(&self.access)
    }
}

impl GraphQLApiDesc {
    /// The outcome of validation: the name, the path, the description, then
    /// the access rules.
    pub open spec fn check(&self) -> Result<(), SchemaError> {
        and_then(
            id_check(self.name@),
            and_then(
                path_check(self.path@),
                and_then(description_check(self.description), access_check(self.access)),
            ),
        )
    }

    pub fn validate(&self) -> (r: Result<(), SchemaError>)
        ensures
            r == self.check(),
    {
        validate_id(self.name.as_str())?;
        validate_api_path(self.path.as_str())?;
        validate_description(&self.description)?;
        validate_access(&self.access)
    }
}

/// The outcomes of validating each field of a list, in order.
pub open spec fn field_outcomes(fields: Seq<FieldDef>) -> Seq<Result<(), SchemaError>> {
    Seq::new(fields.len(), |i: int| fields[i].check())
}

/// Validates the fields of a list in order and stops at the first failure.
pub fn validate_fields(fields: &Vec<FieldDef>) -> (r: Result<(), SchemaError>)
    ensures
        r == first_failure(field_outcomes(fields@)),
{
    let mut i: usize = 0;
    while i < fields.len()
        invariant
            i <= fields.len(),
            forall|j: int| 0 <= j < i ==> (#[trigger] field_outcomes(fields@)[j]) is Ok,
        decreases fields.len() - i,
    {
        let outcome = fields[i].validate();
        if outcome.is_err() {
            proof {
                assert(field_outcomes(fields@)[i as int] == outcome);
                lemma_first_failure_at(field_outcomes(fields@), i as int);
            }
            return outcome;
        }
        i += 1;
    }
    Ok(())
}

impl ModelDef {
    /// The declared fields, or none where the definition lists none.
    pub open spec fn field_list(&self) -> Seq<FieldDef> {
        match self.fields {
            Some(fields) => fields@,
            None => Seq::empty(),
        }
    }

    /// The visibility of the model's rows; everyone sees them unless the
    /// definition says otherwise.
    pub open spec fn scope(&self) -> ModelVisibilityScope {
        match self.visibility_scope {
            Some(scope) => scope,
            None => ModelVisibilityScope::Everyone,
        }
    }

    /// The outcome of validation: the name, the description, then each field
    /// in order.
    pub open spec fn check(&self) -> Result<(), SchemaError> {
        and_then(
            id_check(self.name@),
            and_then(
                description_check(self.description),
                first_failure(field_outcomes(self.field_list())),
            ),
        )
    }

    pub fn validate(&self) -> (r: Result<(), SchemaError>)
        ensures
            r == self.check(),
    {
        validate_id(self.name.as_str())?;
        validate_description(&self.description)?;
        match &self.fields {
            Some(fields) => validate_fields(fields),
            None => {
                assert(field_outcomes(self.field_list()).len() == 0);
                Ok(())
            },
        }
    }

    /// The visibility of the model's rows.
    pub fn get_visibility_scope(&self) -> (r: ModelVisibilityScope)
        ensures
            r == self.scope(),
    {
        match self.visibility_scope {
            Some(scope) => scope,
            None => ModelVisibilityScope::Everyone,
        }
    }
}

impl ApiEndpoint {
    /// The path that the endpoint answers on.
    pub open spec fn path_view(&self) -> Seq<char> {
        match self {
            ApiEndpoint::String(x) => x.path@,
            ApiEndpoint::StaticFile(x) => x.path@,
            ApiEndpoint::Model(x) => x.path@,
            ApiEndpoint::GraphQL(x) => x.path@,
        }
    }

    /// The endpoint's name.
    pub open spec fn name_view(&self) -> Seq<char> {
        match self {
            ApiEndpoint::String(x) => x.name@,
            ApiEndpoint::StaticFile(x) => x.name@,
            ApiEndpoint::Model(x) => x.name@,
            ApiEndpoint::GraphQL(x) => x.name@,
        }
    }

    /// The endpoint's own access rules, where it has any.
    pub open spec fn access_rules(&self) -> Option<Vec<ApiAccessRuleDef>> {
        match self {
            ApiEndpoint::String(x) => x.access,
            ApiEndpoint::StaticFile(x) => x.access,
            ApiEndpoint::Model(x) => x.access,
            ApiEndpoint::GraphQL(x) => x.access,
        }
    }

    /// The outcome of validation, by the rules of the endpoint's variant.
    pub open spec fn check(&self) -> Result<(), SchemaError> {
        match self {
            ApiEndpoint::String(x) => x.check(),
            ApiEndpoint::StaticFile(x) => x.check(),
            ApiEndpoint::Model(x) => x.check(),
            ApiEndpoint::GraphQL(x) => x.check(),
        }
    }

    /// The path that the endpoint answers on.
    pub fn get_path(&self) -> (r: String)
        ensures
            r@ == self.path_view(),
    {
        match self {
            ApiEndpoint::String(x) => x.path.clone(),
            ApiEndpoint::StaticFile(x) => x.path.clone(),
            ApiEndpoint::Model(x) => x.path.clone(),
            ApiEndpoint::GraphQL(x) => x.path.clone(),
        }
    }

    /// The endpoint's name.
    pub fn name(&self) -> (r: &str)
        ensures
            r@ == self.name_view(),
    {
        match self {
            ApiEndpoint::String(x) => x.name.as_str(),
            ApiEndpoint::StaticFile(x) => x.name.as_str(),
            ApiEndpoint::Model(x) => x.name.as_str(),
            ApiEndpoint::GraphQL(x) => x.name.as_str(),
        }
    }

    /// The endpoint's own access rules, where it has any.
    pub fn access(&self) -> (r: Option<&Vec<ApiAccessRuleDef>>)
        ensures
            match r {
                Some(rules) => self.access_rules() == Some(*rules),
                None => self.access_rules() is None,
            },
    {
        let x = match self {
            ApiEndpoint::String(x) => &x.access,
            ApiEndpoint::StaticFile(x) => &x.access,
            ApiEndpoint::Model(x) => &x.access,
            ApiEndpoint::GraphQL(x) => &x.access,
        };
        x.as_ref()
    }

    pub fn validate(&self) -> (r: Result<(), SchemaError>)
        ensures
            r == self.check(),
    {
        match self {
            ApiEndpoint::String(x) => x.validate(),
            ApiEndpoint::StaticFile(x) => x.validate(),
            ApiEndpoint::Model(x) => x.validate(),
            ApiEndpoint::GraphQL(x) => x.validate(),
        }
    }
}

impl ApiDefAccessDef {
    /// The rules that the policy stands for: a single action is the one rule
    /// that gives it to every request.
    pub open spec fn rules(&self) -> Seq<ApiAccessRuleDef> {
        match self {
            ApiDefAccessDef::Action(action) => seq![
                (ApiAccessRuleDef { action: *action, method: None, role: None }),
            ],
            ApiDefAccessDef::Rules(rules) => rules@,
        }
    }

    /// The rules that the policy stands for, in order.
    pub fn get_rules(&self) -> (r: Vec<ApiAccessRuleDef>)
        ensures
            r@ == self.rules(),
    {
        match self {
            ApiDefAccessDef::Action(action) => {
                let mut out = Vec::new();
                out.push(ApiAccessRuleDef::simple(*action));
                assert(out@ =~= self.rules());
                out
            },
            ApiDefAccessDef::Rules(rules) => {
                let mut out: Vec<ApiAccessRuleDef> = Vec::new();
                let mut i: usize = 0;
                while i < rules.len()
                    invariant
                        i <= rules.len(),
                        out@ == rules@.take(i as int),
                    decreases rules.len() - i,
                {
                    out.push(rules[i].duplicate());
                    assert(out@ =~= rules@.take(i + 1));
                    i += 1;
                }
                assert(rules@.take(rules.len() as int) =~= rules@);
                out
            },
        }
    }

    /// The policy of an application that declares none: every caller may
    /// read.
    pub fn default() -> (r: Vec<ApiAccessRuleDef>)
        ensures
            r@.len() == 1,
            r@[0].action == ApiAccessRuleAction::Allow,
            r@[0].method == Some(ApiAccessMethod::Get),
            r@[0].role is None,
    {
        let mut out = Vec::new();
        out.push(ApiAccessRuleDef::allow_aonnymous_get());
        out
    }
}

/// The outcomes of validating each endpoint of a list, in order.
pub open spec fn endpoint_outcomes(endpoints: Seq<ApiEndpoint>) -> Seq<Result<(), SchemaError>> {
    Seq::new(endpoints.len(), |i: int| endpoints[i].check())
}

/// Whether `i` is the position of the first endpoint that answers on `path`.
pub open spec fn is_first_endpoint(endpoints: Seq<ApiEndpoint>, path: Seq<char>, i: int) -> bool {
    &&& 0 <= i < endpoints.len()
    &&& endpoints[i].path_view() == path
    &&& forall|j: int| 0 <= j < i ==> (#[trigger] endpoints[j]).path_view() != path
}

/// The position of the first endpoint that answers on `path`.
pub open spec fn endpoint_position(endpoints: Seq<ApiEndpoint>, path: Seq<char>) -> Option<int> {
    if exists|i: int| is_first_endpoint(endpoints, path, i) {
        Some(choose|i: int| is_first_endpoint(endpoints, path, i))
    } else {
        None
    }
}

impl ApiDef {
    /// The outcome of validation: each endpoint in order.
    pub open spec fn check(&self) -> Result<(), SchemaError> {
        first_failure(endpoint_outcomes(self.endpoints@))
    }

    /// The default rules in force: those declared, or else that every caller
    /// may read.
    pub fn get_default_access(&self) -> (r: Vec<ApiAccessRuleDef>)
        ensures
            match self.default_access {
                Some(policy) => r@ == policy.rules(),
                None => {
                    &&& r@.len() == 1
                    &&& r@[0].action == ApiAccessRuleAction::Allow
                    &&& r@[0].method == Some(ApiAccessMethod::Get)
                    &&& r@[0].role is None
                },
            },
    {
        match &self.default_access {
            Some(x) => x.get_rules(),
            None => ApiDefAccessDef::default(),
        }
    }

    /// The first endpoint whose path is exactly `path`.
    pub fn find_endpoint(&self, path: &str) -> (r: Option<&ApiEndpoint>)
        ensures
            match endpoint_position(self.endpoints@, path@) {
                Some(i) => r == Some(&self.endpoints@[i]),
                None => r is None,
            },
    {
        let mut i: usize = 0;
        while i < self.endpoints.len()
            invariant
                i <= self.endpoints.len(),
                forall|j: int| 0 <= j < i ==> (#[trigger] self.endpoints@[j]).path_view() != path@,
            decreases self.endpoints.len() - i,
        {
            let ep = &self.endpoints[i];
            if ep.get_path().as_str().eq(path) {
                proof {
                    assert(is_first_endpoint(self.endpoints@, path@, i as int));
                    let k = choose|k: int| is_first_endpoint(self.endpoints@, path@, k);
                    if k < i {
                        assert(self.endpoints@[k].path_view() != path@);
                    }
                    if i < k {
                        assert(self.endpoints@[i as int].path_view() != path@);
                    }
                }
                return Some(ep);
            }
            i += 1;
        }
        None
    }

    pub fn validate(&self) -> (r: Result<(), SchemaError>)
        ensures
            r == self.check(),
    {
        let mut i: usize = 0;
        while i < self.endpoints.len()
            invariant
                i <= self.endpoints.len(),
                forall|j: int|
                    0 <= j < i ==> (#[trigger] endpoint_outcomes(self.endpoints@)[j]) is Ok,
            decreases self.endpoints.len() - i,
        {
            let outcome = self.endpoints[i].validate();
            if outcome.is_err() {
                proof {
                    assert(endpoint_outcomes(self.endpoints@)[i as int] == outcome);
                    lemma_first_failure_at(endpoint_outcomes(self.endpoints@), i as int);
                }
                return outcome;
            }
            i += 1;
        }
        Ok(())
    }
}

impl AppMeta {
    /// The outcome of validation: the version is the supported one.
    pub open spec fn check(&self) -> Result<(), SchemaError> {
        if self.schema@ == supported_version() {
            Ok(())
        } else {
            Err(SchemaError::UnsupportedVersion)
        }
    }

    pub fn validate(&self) -> (r: Result<(), SchemaError>)
        ensures
            r == self.check(),
    {
        if self.schema.as_str().eq("v0.0.1") {
            Ok(())
        } else {
            Err(SchemaError::UnsupportedVersion)
        }
    }
}

/// The outcomes of validating each model of a list, in order.
pub open spec fn model_outcomes(models: Seq<ModelDef>) -> Seq<Result<(), SchemaError>> {
    Seq::new(models.len(), |i: int| models[i].check())
}

/// Whether `i` is the position of the first model named `name`.
pub open spec fn is_first_model(models: Seq<ModelDef>, name: Seq<char>, i: int) -> bool {
    &&& 0 <= i < models.len()
    &&& models[i].name@ == name
    &&& forall|j: int| 0 <= j < i ==> (#[trigger] models[j]).name@ != name
}

/// The position of the first model named `name`.
pub open spec fn model_position(models: Seq<ModelDef>, name: Seq<char>) -> Option<int> {
    if exists|i: int| is_first_model(models, name, i) {
        Some(choose|i: int| is_first_model(models, name, i))
    } else {
        None
    }
}

/// Validates the models of a list in order and stops at the first failure.
pub fn validate_models(models: &Vec<ModelDef>) -> (r: Result<(), SchemaError>)
    ensures
        r == first_failure(model_outcomes(models@)),
{
    let mut i: usize = 0;
    while i < models.len()
        invariant
            i <= models.len(),
            forall|j: int| 0 <= j < i ==> (#[trigger] model_outcomes(models@)[j]) is Ok,
        decreases models.len() - i,
    {
        let outcome = models[i].validate();
        if outcome.is_err() {
            proof {
                assert(model_outcomes(models@)[i as int] == outcome);
                lemma_first_failure_at(model_outcomes(models@), i as int);
            }
            return outcome;
        }
        i += 1;
    }
    Ok(())
}

impl AppDef {
    /// The outcome of validating the whole definition: the name, the schema
    /// version, each model in order, then the endpoints. The first violation
    /// decides.
    pub open spec fn check(&self) -> Result<(), SchemaError> {
        and_then(
            id_check(self.name@),
            and_then(
                self.meta.check(),
                and_then(first_failure(model_outcomes(self.models@)), self.api.check()),
            ),
        )
    }

    /// Validates the definition as a unit and reports the first violation.
    pub fn validate(&self) -> (r: Result<(), SchemaError>)
        ensures
            r == self.check(),
    {
        validate_id(self.name.as_str())?;
        self.meta.validate()?;
        validate_models(&self.models)?;
        self.api.validate()
    }

    /// The first model whose name is exactly `model`.
    pub fn get_model(&self, model: &str) -> (r: Option<&ModelDef>)
        ensures
            match model_position(self.models@, model@) {
                Some(i) => r == Some(&self.models@[i]),
                None => r is None,
            },
    {
        let mut i: usize = 0;
        while i < self.models.len()
            invariant
                i <= self.models.len(),
                forall|j: int| 0 <= j < i ==> (#[trigger] self.models@[j]).name@ != model@,
            decreases self.models.len() - i,
        {
            let m = &self.models[i];
            if m.name.as_str().eq(model) {
                proof {
                    assert(is_first_model(self.models@, model@, i as int));
                    let k = choose|k: int| is_first_model(self.models@, model@, k);
                    if k < i {
                        assert(self.models@[k].name@ != model@);
                    }
                    if i < k {
                        assert(self.models@[i as int].name@ != model@);
                    }
                }
                return Some(m);
            }
            i += 1;
        }
        None
    }
}

} // verus!
