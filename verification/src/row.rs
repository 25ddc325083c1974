//! The dynamically typed record that crosses between JSON and storage.

use vstd::prelude::*;
use vstd::string::*;
use crate::error::ErrorKind;
use crate::json::{Json, JsonNumber, JsonView};

verus! {

/// The value of one field of a row.
#[derive(Debug, PartialEq, Eq)]
pub enum RowField {
    String(String),
    Integer(i64),
    /// A floating-point number, as the bit pattern of an IEEE 754 double.
    Float(u64),
    Boolean(bool),
    /// A point in time, in seconds since the Unix epoch.
    DateTime(i64),
    Null,
}

/// What a [`RowField`] stands for.
pub enum RowValue {
    String(Seq<char>),
    Integer(i64),
    Float(u64),
    Boolean(bool),
    DateTime(i64),
    Null,
}

impl View for RowField {
    type V = RowValue;

    open spec fn view(&self) -> RowValue {
        match self {
            RowField::String(v) => RowValue::String(v@),
            RowField::Integer(v) => RowValue::Integer(*v),
            RowField::Float(v) => RowValue::Float(*v),
            RowField::Boolean(v) => RowValue::Boolean(*v),
            RowField::DateTime(v) => RowValue::DateTime(*v),
            RowField::Null => RowValue::Null,
        }
    }
}

/// Why a JSON value is not a row.
#[derive(Debug, Clone, Copy, PartialEq, Eq, Structural)]
pub enum RowError {
    /// The text is not JSON.
    Syntax,
    /// The value is not an object.
    NotAnObject,
    /// A member is null, an array or an object.
    UnsupportedType,
    /// A member is a whole number above the largest signed 64-bit integer.
    NumberOutOfRange,
}

impl RowError {
    /// What the failure reads as.
    pub fn message(&self) -> (r: &'static str)
        ensures
            r@ == (match self {
                RowError::Syntax => "Invalid JSON"@,
                RowError::NotAnObject => "Invalid data"@,
                RowError::UnsupportedType => "Invalid data type"@,
                RowError::NumberOutOfRange => "Invalid input"@,
            }),
    {
        match self {
            RowError::Syntax => "Invalid JSON",
            RowError::NotAnObject => "Invalid data",
            RowError::UnsupportedType => "Invalid data type",
            RowError::NumberOutOfRange => "Invalid input",
        }
    }

    /// Every such failure is a validation failure.
    pub fn kind(&self) -> (r: ErrorKind)
        ensures
            r == ErrorKind::Validation,
    {
        ErrorKind::Validation
    }
}

/// The JSON value that renders a field value.
pub open spec fn field_json(v: RowValue) -> JsonView {
    match v {
        RowValue::String(s) => JsonView::String(s),
        RowValue::Integer(i) => JsonView::Number(Json::integer(i)),
        RowValue::Float(bits) => JsonView::Number(JsonNumber::Float(bits)),
        RowValue::DateTime(t) => JsonView::Number(Json::integer(t)),
        RowValue::Boolean(b) => JsonView::Bool(b),
        RowValue::Null => JsonView::Null,
    }
}

/// The field value that a JSON member gives: a boolean, a string, a number
/// written with a fraction or an exponent as a float, and a whole number as
/// an integer if it fits in 64 bits with a sign. Anything else is refused.
pub open spec fn json_field(j: JsonView) -> Result<RowValue, RowError> {
    match j {
        JsonView::Bool(b) => Ok(RowValue::Boolean(b)),
        JsonView::Number(JsonNumber::Float(bits)) => Ok(RowValue::Float(bits)),
        JsonView::Number(JsonNumber::NegInt(i)) => Ok(RowValue::Integer(i)),
        JsonView::Number(JsonNumber::PosInt(u)) => if u <= i64::MAX as u64 {
            Ok(RowValue::Integer(u as i64))
        } else {
            Err(RowError::NumberOutOfRange)
        },
        JsonView::String(s) => Ok(RowValue::String(s)),
        _ => Err(RowError::UnsupportedType),
    }
}

/// The named values of a row, in the order in which the names first came.
pub type Pairs = Seq<(Seq<char>, RowValue)>;

/// Whether no name occurs twice in `pairs`.
pub open spec fn distinct_names(pairs: Pairs) -> bool {
    forall|i: int, j: int|
        0 <= i < j < pairs.len() ==> (#[trigger] pairs[i]).0 != (#[trigger] pairs[j]).0
}

/// Whether `pairs` holds the name `name`.
pub open spec fn has_name(pairs: Pairs, name: Seq<char>) -> bool {
    exists|i: int| 0 <= i < pairs.len() && (#[trigger] pairs[i]).0 == name
}

/// A position at which `pairs` holds `name`, where it holds it.
pub open spec fn position(pairs: Pairs, name: Seq<char>) -> int {
    choose|i: int| 0 <= i < pairs.len() && (#[trigger] pairs[i]).0 == name
}

/// The value that `pairs` holds under `name`.
pub open spec fn value_of(pairs: Pairs, name: Seq<char>) -> Option<RowValue> {
    if has_name(pairs, name) {
        Some(pairs[position(pairs, name)].1)
    } else {
        None
    }
}

/// `pairs` with `value` under `name`: in the place of the old value where
/// the name is there already, at the end where it is new.
pub open spec fn put(pairs: Pairs, name: Seq<char>, value: RowValue) -> Pairs {
    if has_name(pairs, name) {
        pairs.update(position(pairs, name), (name, value))
    } else {
        pairs.push((name, value))
    }
}

/// The members of the JSON object that renders a row, one for each field in
/// order.
pub open spec fn row_members(pairs: Pairs) -> Seq<(Seq<char>, JsonView)> {
    Seq::new(pairs.len(), |i: int| (pairs[i].0, field_json(pairs[i].1)))
}

/// The row that the members of a JSON object give, taken in order; the
/// first member that is no field value decides the failure.
pub open spec fn members_row(members: Seq<(Seq<char>, JsonView)>) -> Result<Pairs, RowError>
    decreases members.len(),
{
    if members.len() == 0 {
        Ok(Seq::empty())
    } else {
        match members_row(members.drop_last()) {
            Err(e) => Err(e),
            Ok(pairs) => match json_field(members.last().1) {
                Err(e) => Err(e),
                Ok(value) => Ok(put(pairs, members.last().0, value)),
            },
        }
    }
}

/// The row that a JSON value gives: only an object is a row.
pub open spec fn json_row(j: JsonView) -> Result<Pairs, RowError> {
    match j {
        JsonView::Object(members) => members_row(members),
        _ => Err(RowError::NotAnObject),
    }
}

/// The row that a JSON text gives.
pub open spec fn text_row(parsed: Option<JsonView>) -> Result<Pairs, RowError> {
    match parsed {
        Some(j) => json_row(j),
        None => Err(RowError::Syntax),
    }
}

/// With distinct names, a name is held at one position only.
pub proof fn lemma_position(pairs: Pairs, name: Seq<char>, i: int)
    requires
        distinct_names(pairs),
        0 <= i < pairs.len(),
        pairs[i].0 == name,
    ensures
        has_name(pairs, name),
        position(pairs, name) == i,
        value_of(pairs, name) == Some(pairs[i].1),
{
    let k = position(pairs, name);
    assert(0 <= k < pairs.len() && pairs[k].0 == name);
    if k < i {
        assert(pairs[k].0 != pairs[i].0);
    }
    if i < k {
        assert(pairs[i].0 != pairs[k].0);
    }
}

/// Putting a value keeps the names distinct.
pub proof fn lemma_put_distinct(pairs: Pairs, name: Seq<char>, value: RowValue)
    requires
        distinct_names(pairs),
    ensures
        distinct_names(put(pairs, name, value)),
        value_of(put(pairs, name, value), name) == Some(value),
{
    let after = put(pairs, name, value);
    if has_name(pairs, name) {
        let k = position(pairs, name);
        assert(0 <= k < pairs.len() && pairs[k].0 == name);
        assert forall|i: int, j: int| 0 <= i < j < after.len() implies (#[trigger] after[i]).0 != (
        #[trigger] after[j]).0 by {
            assert(after[i].0 == pairs[i].0);
            assert(after[j].0 == pairs[j].0);
        }
        lemma_position(after, name, k);
    } else {
        assert forall|i: int, j: int| 0 <= i < j < after.len() implies (#[trigger] after[i]).0 != (
        #[trigger] after[j]).0 by {
            if j == pairs.len() {
                assert(pairs[i].0 != name);
            } else {
                assert(after[i].0 == pairs[i].0);
                assert(after[j].0 == pairs[j].0);
            }
        }
        lemma_position(after, name, pairs.len() as int);
    }
}

impl Clone for RowField {
    fn clone(&self) -> (r: RowField)
        ensures
            r@ == self@,
    {
        match self {
            RowField::String(v) => RowField::String(v.clone()),
            RowField::Integer(v) => RowField::Integer(*v),
            RowField::Float(v) => RowField::Float(*v),
            RowField::DateTime(v) => RowField::DateTime(*v),
            RowField::Boolean(v) => RowField::Boolean(*v),
            RowField::Null => RowField::Null,
        }
    }
}

impl RowField {
    /// The JSON value that renders the field.
    pub fn to_value(&self) -> (r: Json)
        ensures
            r@ == field_json(self@),
    {
        match self {
            RowField::String(v) => Json::String(v.clone()),
            RowField::Integer(v) => Json::from_integer(*v),
            RowField::Float(v) => Json::Number(JsonNumber::Float(*v)),
            RowField::DateTime(v) => Json::from_integer(*v),
            RowField::Boolean(v) => Json::Bool(*v),
            RowField::Null => Json::Null,
        }
    }

    /// The integer that the field holds, if it holds one.
    pub fn get_int(&self) -> (r: Option<i64>)
        ensures
            r == (match self@ {
                RowValue::Integer(v) => Some(v),
                _ => None,
            }),
    {
        match self {
            RowField::Integer(v) => Some(*v),
            _ => None,
        }
    }

    /// The field value that a JSON member gives.
    pub fn from_value(v: &Json) -> (r: Result<RowField, RowError>)
        ensures
            match r {
                Ok(field) => json_field(v@) == Ok::<RowValue, RowError>(field@),
                Err(e) => json_field(v@) == Err::<RowValue, RowError>(e),
            },
    {
        match v {
            Json::Bool(x) => Ok(RowField::Boolean(*x)),
            Json::Number(JsonNumber::Float(bits)) => Ok(RowField::Float(*bits)),
            Json::Number(JsonNumber::NegInt(i)) => Ok(RowField::Integer(*i)),
            Json::Number(JsonNumber::PosInt(u)) => {
                if *u <= i64::MAX as u64 {
                    Ok(RowField::Integer(*u as i64))
                } else {
                    Err(RowError::NumberOutOfRange)
                }
            },
            Json::String(x) => Ok(RowField::String(x.clone())),
            _ => Err(RowError::UnsupportedType),
        }
    }
}

/// A record of named field values. No name occurs twice; the names keep the
/// order in which they were first set.
#[derive(Debug)]
pub struct Row {
    entries: Vec<(String, RowField)>,
}

impl View for Row {
    type V = Pairs;

    closed spec fn view(&self) -> Pairs {
        Seq::new(self.entries@.len(), |i: int| (self.entries@[i].0@, self.entries@[i].1@))
    }
}

impl Clone for Row {
    fn clone(&self) -> (r: Row)
        ensures
            r@ == self@,
    {
        proof {
            use_type_invariant(self);
        }
        let mut entries: Vec<(String, RowField)> = Vec::new();
        let mut i: usize = 0;
        while i < self.entries.len()
            invariant
                i <= self.entries.len(),
                entries@.len() == i,
                forall|j: int|
                    0 <= j < i ==> (#[trigger] entries@[j]).0@ == self@[j].0 && entries@[j].1@
                        == self@[j].1,
            decreases self.entries.len() - i,
        {
            entries.push((self.entries[i].0.clone(), self.entries[i].1.clone()));
            i += 1;
        }
        assert(self@ =~= Seq::new(entries@.len(), |i: int| (entries@[i].0@, entries@[i].1@)));
        Row { entries }
    }
}

impl Row {
    #[verifier::type_invariant]
    spec fn wf(&self) -> bool {
        distinct_names(self@)
    }

    /// The row without fields.
    pub fn new() -> (r: Row)
        ensures
            r@ == Seq::<(Seq<char>, RowValue)>::empty(),
    {
        let r = Row { entries: Vec::new() };
        assert(r@ =~= Seq::<(Seq<char>, RowValue)>::empty());
        r
    }

    /// The number of fields.
    pub fn len(&self) -> (r: usize)
        ensures
            r == self@.len(),
            distinct_names(self@),
    {
        proof {
            use_type_invariant(self);
        }
        self.entries.len()
    }

    /// The name of the field at position `i`.
    pub fn name_at(&self, i: usize) -> (r: &str)
        requires
            i < self@.len(),
        ensures
            r@ == self@[i as int].0,
    {
        self.entries[i].0.as_str()
    }

    /// The value of the field at position `i`.
    pub fn value_at(&self, i: usize) -> (r: &RowField)
        requires
            i < self@.len(),
        ensures
            r@ == self@[i as int].1,
    {
        &self.entries[i].1
    }

    fn find(&self, field: &str) -> (r: Option<usize>)
        ensures
            distinct_names(self@),
            match r {
                Some(i) => i < self@.len() && self@[i as int].0 == field@,
                None => !has_name(self@, field@),
            },
    {
        proof {
            use_type_invariant(self);
        }
        let mut i: usize = 0;
        while i < self.entries.len()
            invariant
                i <= self.entries.len(),
                distinct_names(self@),
                forall|j: int| 0 <= j < i ==> (#[trigger] self@[j]).0 != field@,
            decreases self.entries.len() - i,
        {
            if self.entries[i].0.as_str().eq(field) {
                return Some(i);
            }
            i += 1;
        }
        None
    }

    /// The value of the field named `field`.
    pub fn get(&self, field: &str) -> (r: Option<&RowField>)
        ensures
            distinct_names(self@),
            match r {
                Some(v) => value_of(self@, field@) == Some(v@),
                None => value_of(self@, field@) is None,
            },
    {
        match self.find(field) {
            Some(i) => {
                proof {
                    lemma_position(self@, field@, i as int);
                }
                Some(&self.entries[i].1)
            },
            None => None,
        }
    }

    /// Whether the row has a field named `field`.
    pub fn contains_key(&self, field: &str) -> (r: bool)
        ensures
            r == has_name(self@, field@),
    {
        self.find(field).is_some()
    }

    /// Sets the field named `field` to `val`.
    pub fn set(&mut self, field: &str, val: RowField)
        ensures
            final(self)@ == put(old(self)@, field@, val@),
    {
        proof {
            use_type_invariant(&*self);
            lemma_put_distinct(self@, field@, val@);
        }
        let found = self.find(field);
        let ghost before = self@;
        let mut entries: Vec<(String, RowField)> = Vec::new();
        core::mem::swap(&mut self.entries, &mut entries);
        assert(before =~= Seq::new(entries@.len(), |i: int| (entries@[i].0@, entries@[i].1@)));
        match found {
            Some(i) => {
                proof {
                    lemma_position(before, field@, i as int);
                }
                entries.set(i, (field.to_owned(), val));
            },
            None => {
                entries.push((field.to_owned(), val));
            },
        }
        assert(put(before, field@, val@) =~= Seq::new(
            entries@.len(),
            |i: int| (entries@[i].0@, entries@[i].1@),
        ));
        self.entries = entries;
    }

    /// The text of the field named `field`, if it holds one.
    pub fn get_str(&self, field: &str) -> (r: Option<&str>)
        ensures
            match r {
                Some(s) => value_of(self@, field@) == Some(RowValue::String(s@)),
                None => !(value_of(self@, field@) matches Some(RowValue::String(_))),
            },
    {
        match self.get(field) {
            Some(RowField::String(s)) => Some(s.as_str()),
            _ => None,
        }
    }

    /// The integer of the field named `field`, if it holds one.
    pub fn get_int(&self, field: &str) -> (r: Option<i64>)
        ensures
            r == (match value_of(self@, field@) {
                Some(RowValue::Integer(v)) => Some(v),
                _ => None,
            }),
    {
        match self.get(field) {
            Some(RowField::Integer(v)) => Some(*v),
            _ => None,
        }
    }

    /// The row that a JSON value gives.
    pub fn from_value(v: &Json) -> (r: Result<Row, RowError>)
        ensures
            match r {
                Ok(row) => json_row(v@) == Ok::<Pairs, RowError>(row@),
                Err(e) => json_row(v@) == Err::<Pairs, RowError>(e),
            },
    {
        match v {
            Json::Object(members) => {
                let ghost all = Seq::new(
                    members@.len(),
                    |j: int| (members@[j].0@, members@[j].1@),
                );
                assert(v@ == JsonView::Object(all)) by {
                    assert(v@->Object_0 =~= all);
                }
                let mut ret = Row::new();
                let mut i: usize = 0;
                assert(all.take(0) =~= Seq::empty());
                while i < members.len()
                    invariant
                        i <= members.len(),
                        v@ == JsonView::Object(all),
                        all.len() == members@.len(),
                        forall|j: int|
                            0 <= j < all.len() ==> #[trigger] all[j] == (
                                members@[j].0@,
                                members@[j].1@,
                            ),
                        members_row(all.take(i as int)) == Ok::<Pairs, RowError>(ret@),
                    decreases members.len() - i,
                {
                    proof {
                        assert(all.take(i + 1).drop_last() =~= all.take(i as int));
                        assert(all.take(i + 1).last() == all[i as int]);
                    }
                    match RowField::from_value(&members[i].1) {
                        Ok(f) => {
                            ret.set(members[i].0.as_str(), f);
                        },
                        Err(e) => {
                            proof {
                                lemma_members_row_fails(all, i as int + 1);
                            }
                            return Err(e);
                        },
                    }
                    i += 1;
                }
                assert(all.take(members.len() as int) =~= all);
                Ok(ret)
            },
            _ => Err(RowError::NotAnObject),
        }
    }

    /// The row that a JSON text gives.
    pub fn from_json(s: &str) -> (r: Result<Row, RowError>)
        ensures
            match r {
                Ok(row) => text_row(crate::json::json_of_text(s@)) == Ok::<Pairs, RowError>(row@),
                Err(e) => text_row(crate::json::json_of_text(s@)) == Err::<Pairs, RowError>(e),
            },
    {
        match Json::parse(s) {
            Some(v) => Row::from_value(&v),
            None => Err(RowError::Syntax),
        }
    }

    /// The JSON object that renders the row, one member for each field in
    /// order.
    pub fn to_value(&self) -> (r: Json)
        ensures
            r@ == JsonView::Object(row_members(self@)),
    {
        let mut members: Vec<(String, Json)> = Vec::new();
        let mut i: usize = 0;
        while i < self.entries.len()
            invariant
                i <= self.entries.len(),
                members@.len() == i,
                forall|j: int|
                    0 <= j < i ==> (#[trigger] members@[j]).0@ == self@[j].0 && members@[j].1@
                        == field_json(self@[j].1),
            decreases self.entries.len() - i,
        {
            members.push((self.entries[i].0.clone(), self.entries[i].1.to_value()));
            i += 1;
        }
        let r = Json::Object(members);
        assert(r@->Object_0 =~= row_members(self@));
        r
    }
}

/// Once a prefix of the members fails, every longer prefix fails the same
/// way.
pub proof fn lemma_members_row_fails(members: Seq<(Seq<char>, JsonView)>, n: int)
    requires
        0 <= n <= members.len(),
        members_row(members.take(n)) is Err,
    ensures
        members_row(members) == members_row(members.take(n)),
    decreases members.len() - n,
{
    if n == members.len() {
        assert(members.take(n) =~= members);
    } else {
        assert(members.take(n + 1).drop_last() =~= members.take(n));
        lemma_members_row_fails(members, n + 1);
    }
}

} // verus!
