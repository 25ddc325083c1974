//! Who may call an endpoint: the ordered access rules, and the identity
//! that a request's credentials stand for.

use vstd::prelude::*;
use vstd::string::*;
use crate::row::{value_of, Pairs, Row, RowField, RowValue};
use crate::schema::{
    endpoint_position, ApiAccessRuleAction, ApiAccessRuleDef, ApiEndpoint, AppDef,
};
use crate::storage::ADMIN;

verus! {

/// The lower-case form of a text, as the standard library computes it.
pub uninterp spec fn lowercase(text: Seq<char>) -> Seq<char>;

/// `str::to_lowercase` of the standard library: the lower-case form of the
/// text, which depends on the text alone.
#[verifier::external_body]
fn to_lowercase(text: &str) -> (r: String)
    ensures
        r@ == lowercase(text@),
{
    text.to_lowercase()
}

/// Whether a caller has the role `role`: `anonymous` is a caller without
/// identity, `admin` the administrator, `user` a caller with any identity
/// but the administrator's. No caller has any other role.
pub open spec fn role_matches(role: Seq<char>, uid: Option<i64>) -> bool {
    if role == "anonymous"@ {
        uid is None
    } else if role == "admin"@ {
        uid == Some(ADMIN)
    } else if role == "user"@ {
        uid matches Some(x) && x != ADMIN
    } else {
        false
    }
}

/// Whether `rule` applies to a request: its method, where it names one, is
/// the request's, and its role, where it names one, is the caller's.
pub open spec fn rule_applies(rule: ApiAccessRuleDef, method: Seq<char>, uid: Option<i64>) -> bool {
    &&& rule.method matches Some(m) ==> m.text() == method
    &&& rule.role matches Some(role) ==> role_matches(role@, uid)
}

/// Whether `i` is the position of the first rule that applies.
pub open spec fn is_first_match(
    rules: Seq<ApiAccessRuleDef>,
    method: Seq<char>,
    uid: Option<i64>,
    i: int,
) -> bool {
    &&& 0 <= i < rules.len()
    &&& rule_applies(rules[i], method, uid)
    &&& forall|j: int| 0 <= j < i ==> !rule_applies(#[trigger] rules[j], method, uid)
}

/// What an ordered list of rules decides: the action of the first rule
/// that applies, and denial when none does.
pub open spec fn rules_allow(rules: Seq<ApiAccessRuleDef>, method: Seq<char>, uid: Option<i64>) -> bool {
    exists|i: int|
        is_first_match(rules, method, uid, i) && (#[trigger] rules[i]).action
            == ApiAccessRuleAction::Allow
}

/// Whether a request is let through to `ep`. The administrator always is.
/// Any other caller is judged by the endpoint's own rules, or by the
/// application's default rules where the endpoint has none; without a
/// definition or without any rules the request is denied.
pub open spec fn access_allowed(
    ep: ApiEndpoint,
    app: Option<AppDef>,
    method: Seq<char>,
    uid: Option<i64>,
) -> bool {
    if uid == Some(ADMIN) {
        true
    } else {
        match app {
            None => false,
            Some(def) => match ep.access_rules() {
                Some(rules) => rules_allow(rules@, method, uid),
                None => match def.api.default_access {
                    Some(policy) => rules_allow(policy.rules(), method, uid),
                    None => false,
                },
            },
        }
    }
}

/// Whether `rule` applies to a request with the method `method_name`, in
/// lower case, from the caller `uid`.
pub fn rule_match(method_name: &str, rule: &ApiAccessRuleDef, uid: Option<i64>) -> (r: bool)
    ensures
        r == rule_applies(*rule, method_name@, uid),
{
    if let Some(x) = &rule.method {
        if !x.as_str().eq(method_name) {
            return false;
        }
    }
    match &rule.role {
        None => true,
        Some(x) => {
            let role = x.as_str();
            if role.eq("anonymous") {
                uid.is_none()
            } else if role.eq("admin") {
                match uid {
                    Some(id) => id == ADMIN,
                    None => false,
                }
            } else if role.eq("user") {
                match uid {
                    Some(id) => id != ADMIN,
                    None => false,
                }
            } else {
                false
            }
        },
    }
}

/// What the rules decide for a request, by first match.
pub fn evaluate_rules(rules: &Vec<ApiAccessRuleDef>, method_name: &str, uid: Option<i64>) -> (r:
    bool)
    ensures
        r == rules_allow(rules@, method_name@, uid),
{
    let mut i: usize = 0;
    while i < rules.len()
        invariant
            i <= rules.len(),
            forall|j: int| 0 <= j < i ==> !rule_applies(#[trigger] rules@[j], method_name@, uid),
        decreases rules.len() - i,
    {
        if rule_match(method_name, &rules[i], uid) {
            let allowed = rules[i].action.allowed();
            proof {
                assert(is_first_match(rules@, method_name@, uid, i as int));
                if !allowed {
                    assert forall|k: int|
                        is_first_match(rules@, method_name@, uid, k) implies (
                    #[trigger] rules@[k]).action != ApiAccessRuleAction::Allow by {
                        if k < i {
                            assert(!rule_applies(rules@[k], method_name@, uid));
                        }
                        if i < k {
                            assert(!rule_applies(rules@[i as int], method_name@, uid));
                        }
                    }
                }
            }
            return allowed;
        }
        i += 1;
    }
    false
}

/// Whether a request whose method is `method_name`, already in lower case,
/// is let through to `ep`.
pub fn decide_access(
    method_name: &str,
    appdef: Option<&AppDef>,
    ep: &ApiEndpoint,
    uid: Option<i64>,
) -> (r: bool)
    ensures
        r == access_allowed(
            *ep,
            match appdef {
                Some(def) => Some(*def),
                None => None,
            },
            method_name@,
            uid,
        ),
{
    if let Some(id) = uid {
        if id == ADMIN {
            return true;
        }
    }
    let def = match appdef {
        Some(x) => x,
        None => {
            return false;
        },
    };
    match ep.access() {
        Some(rules) => evaluate_rules(rules, method_name, uid),
        None => match &def.api.default_access {
            Some(policy) => {
                let rules = policy.get_rules();
                evaluate_rules(&rules, method_name, uid)
            },
            None => false,
        },
    }
}

/// Whether a request with the method `method`, in any case, is let through
/// to `ep`.
pub fn check_access(method: &str, appdef: Option<&AppDef>, ep: &ApiEndpoint, uid: Option<i64>) -> (r:
    bool)
    ensures
        r == access_allowed(
            *ep,
            match appdef {
                Some(def) => Some(*def),
                None => None,
            },
            lowercase(method@),
            uid,
        ),
{
    let lower = to_lowercase(method);
    decide_access(lower.as_str(), appdef, ep, uid)
}

/// What becomes of a request to an application.
#[derive(Debug, PartialEq, Eq)]
pub enum EndpointAction<'a> {
    /// No endpoint answers on the path.
    NotFound,
    /// The rules of the endpoint deny the request.
    Denied,
    /// The endpoint serves the request.
    Serve(&'a ApiEndpoint),
}

/// What becomes of a request with the method `method` for the path
/// `api_path` of the application `appdef`: the first endpoint on that path
/// serves it if its rules let the caller `uid` through. Access is decided
/// before anything is read or written.
pub fn endpoint_action<'a>(
    appdef: &'a AppDef,
    api_path: &str,
    method: &str,
    uid: Option<i64>,
) -> (r: EndpointAction<'a>)
    ensures
        match endpoint_position(appdef.api.endpoints@, api_path@) {
            None => r == EndpointAction::NotFound,
            Some(i) => if access_allowed(
                appdef.api.endpoints@[i],
                Some(*appdef),
                lowercase(method@),
                uid,
            ) {
                r == EndpointAction::Serve(&appdef.api.endpoints@[i])
            } else {
                r == EndpointAction::Denied
            },
        },
{
    match appdef.api.find_endpoint(api_path) {
        Some(ep) => {
            if check_access(method, Some(appdef), ep, uid) {
                EndpointAction::Serve(ep)
            } else {
                EndpointAction::Denied
            }
        },
        None => EndpointAction::NotFound,
    }
}

/// Whether `i` is the position of the only space in `s`.
pub open spec fn is_only_space(s: Seq<char>, i: int) -> bool {
    &&& 0 <= i < s.len()
    &&& s[i] == ' '
    &&& forall|j: int| 0 <= j < s.len() && j != i ==> #[trigger] s[j] != ' '
}

/// The token of an authorization header of the form `<scheme> <token>`:
/// what follows the space, where the header holds exactly one.
pub open spec fn auth_token(header: Seq<char>) -> Option<Seq<char>> {
    if exists|i: int| is_only_space(header, i) {
        Some(header.skip((choose|i: int| is_only_space(header, i)) + 1))
    } else {
        None
    }
}

/// The token of an authorization header.
pub fn get_auth_token(header: &str) -> (r: Option<&str>)
    ensures
        match r {
            Some(token) => auth_token(header@) == Some(token@),
            None => auth_token(header@) is None,
        },
{
    let n = header.unicode_len();
    let mut spaces: usize = 0;
    let mut at: usize = 0;
    let mut i: usize = 0;
    for c in it: header.chars()
        invariant
            it.seq() == header@,
            n == header@.len(),
            i == it.index(),
            spaces <= 2,
            spaces == 0 ==> forall|j: int| 0 <= j < i ==> #[trigger] header@[j] != ' ',
            spaces == 1 ==> at < i && header@[at as int] == ' ' && forall|j: int|
                0 <= j < i && j != at ==> #[trigger] header@[j] != ' ',
            spaces == 2 ==> exists|a: int, b: int|
                0 <= a < b < i && header@[a] == ' ' && header@[b] == ' ',
    {
        if c == ' ' {
            if spaces == 0 {
                at = i;
                spaces = 1;
            } else if spaces == 1 {
                assert(header@[at as int] == ' ' && header@[i as int] == ' ');
                spaces = 2;
            }
        }
        i += 1;
    }
    if spaces == 1 {
        proof {
            assert(is_only_space(header@, at as int));
            let k = choose|k: int| is_only_space(header@, k);
            assert(is_only_space(header@, k));
            assert(k == at);
            assert(header@.subrange(at + 1, n as int) =~= header@.skip(at + 1));
        }
        Some(header.substring_char(at + 1, n))
    } else {
        proof {
            if spaces == 2 {
                let (a, b) = choose|a: int, b: int|
                    0 <= a < b < header@.len() && header@[a] == ' ' && header@[b] == ' ';
                assert forall|k: int| !is_only_space(header@, k) by {
                    if is_only_space(header@, k) {
                        if k == a {
                            assert(header@[b] != ' ');
                        } else {
                            assert(header@[a] != ' ');
                        }
                    }
                }
            }
        }
        None
    }
}

/// What the credentials of a request come to before any lookup.
#[derive(Debug, PartialEq, Eq)]
pub enum AuthStep {
    /// The caller's identity is known: nobody, or the administrator.
    Known(Option<i64>),
    /// The caller is the user whose record meets this condition, if there is
    /// one.
    Lookup(String),
}

/// The condition that finds the user with the token `token`.
pub open spec fn token_condition(token: Seq<char>) -> Seq<char> {
    "token='"@ + token + "'"@
}

/// What a token comes to before any lookup: a request without a token, or
/// with one that holds a quote, is anonymous; the application's
/// administrator token is the administrator; any other token is looked up
/// among the users.
pub open spec fn auth_step(token: Option<Seq<char>>, admin_token: Seq<char>) -> Result<
    Option<i64>,
    Seq<char>,
> {
    match token {
        None => Ok(None),
        Some(t) => if t.contains('\'') {
            Ok(None)
        } else if t == admin_token {
            Ok(Some(ADMIN))
        } else {
            Err(token_condition(t))
        },
    }
}

/// Whether `text` holds the character `wanted`.
fn holds_char(text: &str, wanted: char) -> (r: bool)
    ensures
        r == text@.contains(wanted),
{
    for c in it: text.chars()
        invariant
            it.seq() == text@,
            forall|j: int| 0 <= j < it.index() ==> #[trigger] text@[j] != wanted,
    {
        if c == wanted {
            assert(text@[it.index() as int] == wanted);
            return true;
        }
    }
    false
}

/// What the authorization header of a request comes to before any lookup.
/// A header that is absent or malformed gives an anonymous caller, never a
/// failure.
pub fn api_authenticate(header: Option<&str>, admin_token: &str) -> (r: AuthStep)
    ensures
        match auth_step(
            match header {
                Some(h) => auth_token(h@),
                None => None,
            },
            admin_token@,
        ) {
            Ok(uid) => r == AuthStep::Known(uid),
            Err(cond) => r matches AuthStep::Lookup(c) && c@ == cond,
        },
{
    let token = match header {
        Some(h) => match get_auth_token(h) {
            Some(t) => t,
            None => {
                return AuthStep::Known(None);
            },
        },
        None => {
            return AuthStep::Known(None);
        },
    };
    if holds_char(token, '\'') {
        return AuthStep::Known(None);
    }
    if token.eq(admin_token) {
        return AuthStep::Known(Some(ADMIN));
    }
    let mut cond = "token='".to_owned();
    cond.append(token);
    cond.append("'");
    AuthStep::Lookup(cond)
}

/// The identity that a user record gives: its `id`, where it is an integer.
pub open spec fn record_identity(found: Option<Pairs>) -> Option<i64> {
    match found {
        Some(pairs) => match value_of(pairs, "id"@) {
            Some(RowValue::Integer(x)) => Some(x),
            _ => None,
        },
        None => None,
    }
}

/// The identity of the caller whose token was looked up: that of the user
/// record found, and nobody where none was found.
pub fn identity_of(found: Option<&Row>) -> (r: Option<i64>)
    ensures
        r == record_identity(
            match found {
                Some(row) => Some(row@),
                None => None,
            },
        ),
{
    match found {
        Some(rec) => match rec.get("id") {
            Some(RowField::Integer(x)) => Some(*x),
            _ => None,
        },
        None => None,
    }
}

/// The first rule that applies decides: what follows it has no say.
pub proof fn lemma_first_match_decides(
    rules: Seq<ApiAccessRuleDef>,
    method: Seq<char>,
    uid: Option<i64>,
    i: int,
)
    requires
        is_first_match(rules, method, uid, i),
    ensures
        rules_allow(rules, method, uid) == (rules[i].action == ApiAccessRuleAction::Allow),
{
    if rules_allow(rules, method, uid) {
        let k = choose|k: int|
            is_first_match(rules, method, uid, k) && (#[trigger] rules[k]).action
                == ApiAccessRuleAction::Allow;
        if k < i {
            assert(!rule_applies(rules[k], method, uid));
        }
        if i < k {
            assert(!rule_applies(rules[i], method, uid));
        }
    }
}

/// Of two rules the first decides where it applies, and the second only
/// where the first does not: so the order of two rules matters exactly when
/// both apply and their actions differ.
pub proof fn lemma_two_rules(
    first: ApiAccessRuleDef,
    second: ApiAccessRuleDef,
    method: Seq<char>,
    uid: Option<i64>,
)
    ensures
        rules_allow(seq![first, second], method, uid) == (if rule_applies(first, method, uid) {
            first.action == ApiAccessRuleAction::Allow
        } else if rule_applies(second, method, uid) {
            second.action == ApiAccessRuleAction::Allow
        } else {
            false
        }),
{
    let rules = seq![first, second];
    if rule_applies(first, method, uid) {
        assert(is_first_match(rules, method, uid, 0));
        lemma_first_match_decides(rules, method, uid, 0);
    } else if rule_applies(second, method, uid) {
        assert(is_first_match(rules, method, uid, 1));
        lemma_first_match_decides(rules, method, uid, 1);
    } else {
        lemma_no_match_denies(rules, method, uid);
    }
}

/// A list of which no rule applies denies.
pub proof fn lemma_no_match_denies(rules: Seq<ApiAccessRuleDef>, method: Seq<char>, uid: Option<i64>)
    requires
        forall|j: int| 0 <= j < rules.len() ==> !rule_applies(#[trigger] rules[j], method, uid),
    ensures
        !rules_allow(rules, method, uid),
{
}

/// The administrator is let through whatever the rules say.
pub proof fn lemma_admin_allowed(ep: ApiEndpoint, app: Option<AppDef>, method: Seq<char>)
    ensures
        access_allowed(ep, app, method, Some(ADMIN)),
{
}

} // verus!
