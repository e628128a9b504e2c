//! Structured values: what a step's parameters and a message's payload are
//! made of.

use crate::text::append_chars;
use crate::text::chars_of;
use crate::text::decimal;
use crate::text::push_decimal;
use crate::text::push_signed_decimal;
use crate::text::reads_as;
use crate::text::signed_decimal;
use crate::text::string_of;
use vstd::prelude::*;

verus! {

/// A number as a structured value holds it. A fraction is kept as the
/// decimal text that stands for it in a document.
#[derive(Clone, Debug, PartialEq)]
pub enum Number {
    PosInt(u64),
    NegInt(i64),
    Float(String),
}

/// One named member of an object.
#[derive(Debug, PartialEq)]
pub struct Member {
    pub name: String,
    pub value: Json,
}

/// A structured value.
#[derive(Debug, PartialEq)]
pub enum Json {
    Null,
    Bool(bool),
    Number(Number),
    Text(String),
    List(Vec<Json>),
    Object(Vec<Member>),
}

/// What a `Number` stands for.
#[verifier::ext_equal]
pub enum NumberModel {
    PosInt(u64),
    NegInt(i64),
    Float(Seq<char>),
}

/// What a `Json` stands for: the members of an object are kept in their order.
#[verifier::ext_equal]
pub enum JsonModel {
    Null,
    Bool(bool),
    Number(NumberModel),
    Text(Seq<char>),
    List(Seq<JsonModel>),
    Object(Seq<(Seq<char>, JsonModel)>),
}

/// The value of the last of the first `upto` of `members` that is named
/// `key`.
pub open spec fn named_upto(members: Seq<(Seq<char>, JsonModel)>, upto: int, key: Seq<char>) -> Option<
    JsonModel,
>
    decreases upto,
{
    if upto <= 0 || upto > members.len() {
        None
    } else if members[upto - 1].0 == key {
        Some(members[upto - 1].1)
    } else {
        named_upto(members, upto - 1, key)
    }
}

/// Whether no two of `members` have the same name.
pub open spec fn unique_names(members: Seq<(Seq<char>, JsonModel)>) -> bool {
    forall|i: int, j: int|
        0 <= i < j < members.len() ==> (#[trigger] members[i]).0 != (#[trigger] members[j]).0
}

impl NumberModel {
    /// The number as an unsigned integer, where it is one.
    pub open spec fn as_u64(self) -> Option<u64> {
        match self {
            NumberModel::PosInt(n) => Some(n),
            _ => None,
        }
    }

    /// The number as a signed integer, where it is one that fits.
    pub open spec fn as_i64(self) -> Option<i64> {
        match self {
            NumberModel::PosInt(n) => if n <= i64::MAX {
                Some(n as i64)
            } else {
                None
            },
            NumberModel::NegInt(n) => Some(n),
            NumberModel::Float(_) => None,
        }
    }
}

impl JsonModel {
    /// The value of the member named `key`, where this is an object that
    /// has one. Where a name stands more than once, its last member counts.
    pub open spec fn member(self, key: Seq<char>) -> Option<JsonModel> {
        match self {
            JsonModel::Object(members) => named_upto(members, members.len() as int, key),
            _ => None,
        }
    }

    /// The text, where this is a text.
    pub open spec fn as_str(self) -> Option<Seq<char>> {
        match self {
            JsonModel::Text(text) => Some(text),
            _ => None,
        }
    }

    /// The unsigned integer, where this is one.
    pub open spec fn as_u64(self) -> Option<u64> {
        match self {
            JsonModel::Number(n) => n.as_u64(),
            _ => None,
        }
    }

    /// The signed integer, where this is one that fits.
    pub open spec fn as_i64(self) -> Option<i64> {
        match self {
            JsonModel::Number(n) => n.as_i64(),
            _ => None,
        }
    }
}

impl NumberModel {
    /// The value of the number, where it is an integer.
    pub open spec fn integer(self) -> Option<int> {
        match self {
            NumberModel::PosInt(n) => Some(n as int),
            NumberModel::NegInt(n) => Some(n as int),
            NumberModel::Float(_) => None,
        }
    }
}

/// Whether the two numbers are the same: two integers of the same value,
/// or two fractions of the same text.
pub open spec fn same_number(a: NumberModel, b: NumberModel) -> bool {
    match (a, b) {
        (NumberModel::Float(x), NumberModel::Float(y)) => x == y,
        _ => a.integer() is Some && a.integer() == b.integer(),
    }
}

/// Whether member `i` of `members` counts: no later member has its name.
pub open spec fn counts(members: Seq<(Seq<char>, JsonModel)>, i: int) -> bool {
    forall|k: int| i < k < members.len() ==> (#[trigger] members[k]).0 != members[i].0
}

/// Whether the two values are the same value. Two lists are the same where
/// they have the same items in the same order. Two objects are the same
/// where they have the same names and, under each name, the same value:
/// the order of the members does not count, and of the members of one name
/// only the last.
pub open spec fn same_value(a: JsonModel, b: JsonModel) -> bool
    decreases a,
{
    match a {
        JsonModel::Null => b is Null,
        JsonModel::Bool(x) => b == JsonModel::Bool(x),
        JsonModel::Number(n) => b matches JsonModel::Number(m) && same_number(n, m),
        JsonModel::Text(text) => b == JsonModel::Text(text),
        JsonModel::List(items) => {
            &&& b matches JsonModel::List(others)
            &&& items.len() == others.len()
            &&& forall|i: int| 0 <= i < items.len() ==> same_value(#[trigger] items[i], others[i])
        },
        JsonModel::Object(members) => {
            &&& b matches JsonModel::Object(others)
            &&& forall|i: int|
                0 <= i < members.len() && counts(members, i) ==> (match named_upto(
                    others,
                    others.len() as int,
                    (#[trigger] members[i]).0,
                ) {
                    Some(value) => same_value(members[i].1, value),
                    None => false,
                })
            &&& forall|j: int|
                0 <= j < others.len() ==> named_upto(
                    members,
                    members.len() as int,
                    (#[trigger] others[j]).0,
                ) is Some
        },
    }
}

/// A name finds the member of it that counts.
pub proof fn lemma_counting_member_is_found(
    members: Seq<(Seq<char>, JsonModel)>,
    i: int,
    upto: int,
)
    requires
        0 <= i < upto <= members.len(),
        counts(members, i),
    ensures
        named_upto(members, upto, members[i].0) == Some(members[i].1),
    decreases upto,
{
    if upto - 1 > i {
        assert(members[upto - 1].0 != members[i].0);
        lemma_counting_member_is_found(members, i, upto - 1);
    }
}

/// A name that a member has finds a member.
pub proof fn lemma_name_is_found(members: Seq<(Seq<char>, JsonModel)>, j: int, upto: int)
    requires
        0 <= j < upto <= members.len(),
    ensures
        named_upto(members, upto, members[j].0) is Some,
    decreases upto,
{
    if upto - 1 > j && members[upto - 1].0 != members[j].0 {
        lemma_name_is_found(members, j, upto - 1);
    }
}

/// Every value is the same value as itself.
pub proof fn lemma_same_value_reflexive(a: JsonModel)
    ensures
        same_value(a, a),
    decreases a,
{
    match a {
        JsonModel::List(items) => {
            assert forall|i: int| 0 <= i < items.len() implies same_value(
                #[trigger] items[i],
                items[i],
            ) by {
                lemma_same_value_reflexive(items[i]);
            }
        },
        JsonModel::Object(members) => {
            assert forall|i: int| 0 <= i < members.len() && counts(members, i) implies (match named_upto(
                members,
                members.len() as int,
                (#[trigger] members[i]).0,
            ) {
                Some(value) => same_value(members[i].1, value),
                None => false,
            }) by {
                lemma_counting_member_is_found(members, i, members.len() as int);
                lemma_same_value_reflexive(members[i].1);
            }
            assert forall|j: int| 0 <= j < members.len() implies named_upto(
                members,
                members.len() as int,
                (#[trigger] members[j]).0,
            ) is Some by {
                lemma_name_is_found(members, j, members.len() as int);
            }
        },
        _ => {},
    }
}

impl View for Number {
    type V = NumberModel;

    open spec fn view(&self) -> NumberModel {
        match self {
            Number::PosInt(n) => NumberModel::PosInt(*n),
            Number::NegInt(n) => NumberModel::NegInt(*n),
            Number::Float(text) => NumberModel::Float(text@),
        }
    }
}

/// What `value` stands for.
pub open spec fn model_of(value: Json) -> JsonModel
    decreases value,
{
    match value {
        Json::Null => JsonModel::Null,
        Json::Bool(b) => JsonModel::Bool(b),
        Json::Number(n) => JsonModel::Number(n@),
        Json::Text(text) => JsonModel::Text(text@),
        Json::List(items) => JsonModel::List(
            Seq::new(
                items@.len(),
                |i: int|
                    if 0 <= i < items@.len() {
                        model_of(items@[i])
                    } else {
                        JsonModel::Null
                    },
            ),
        ),
        Json::Object(members) => JsonModel::Object(
            Seq::new(
                members@.len(),
                |i: int|
                    if 0 <= i < members@.len() {
                        (members@[i].name@, model_of(members@[i].value))
                    } else {
                        (Seq::empty(), JsonModel::Null)
                    },
            ),
        ),
    }
}

impl View for Json {
    type V = JsonModel;

    open spec fn view(&self) -> JsonModel {
        model_of(*self)
    }
}

impl Number {
    /// A copy of this number.
    pub fn duplicate(&self) -> (copy: Number)
        ensures
            copy@ == self@,
    {
        match self {
            Number::PosInt(n) => Number::PosInt(*n),
            Number::NegInt(n) => Number::NegInt(*n),
            Number::Float(text) => Number::Float(text.clone()),
        }
    }

    /// Whether the two numbers are the same: two integers of the same
    /// value, or two fractions of the same text. An integer is no fraction.
    pub fn same(&self, other: &Number) -> (equal: bool)
        ensures
            equal == same_number(self@, other@),
    {
        match (self, other) {
            (Number::PosInt(a), Number::PosInt(b)) => *a == *b,
            (Number::NegInt(a), Number::NegInt(b)) => *a == *b,
            (Number::PosInt(a), Number::NegInt(b)) => *b >= 0 && *a == *b as u64,
            (Number::NegInt(a), Number::PosInt(b)) => *a >= 0 && *a as u64 == *b,
            (Number::Float(a), Number::Float(b)) => *a == *b,
            _ => false,
        }
    }
}

/// What a list of members stands for.
pub open spec fn members_model(members: Seq<Member>) -> Seq<(Seq<char>, JsonModel)> {
    Seq::new(members.len(), |i: int| (members[i].name@, members[i].value@))
}

/// What a list of values stands for.
pub open spec fn items_model(items: Seq<Json>) -> Seq<JsonModel> {
    Seq::new(items.len(), |i: int| items[i]@)
}

/// The view of an object is the view of its members, and the view of a list
/// that of its items.
pub proof fn lemma_view_of_parts(value: Json)
    ensures
        value matches Json::Object(members) ==> value@ == JsonModel::Object(members_model(members@)),
        value matches Json::List(items) ==> value@ == JsonModel::List(items_model(items@)),
{
    broadcast use vstd::std_specs::vec::group_vec_axioms;

    match value {
        Json::Object(members) => {
            assert(value@->Object_0 =~= members_model(members@));
        },
        Json::List(items) => {
            assert(value@->List_0 =~= items_model(items@));
        },
        _ => {},
    }
}

/// The member named `key` among `members`: the last one of that name.
pub fn find_member<'a>(members: &'a Vec<Member>, key: &str) -> (found: Option<&'a Json>)
    ensures
        match found {
            Some(value) => named_upto(members_model(members@), members@.len() as int, key@) == Some(
                value@,
            ),
            None => named_upto(members_model(members@), members@.len() as int, key@) is None,
        },
{
    let mut i: usize = members.len();
    while i > 0
        invariant
            i <= members.len(),
            named_upto(members_model(members@), members@.len() as int, key@) == named_upto(
                members_model(members@),
                i as int,
                key@,
            ),
        decreases i,
    {
        i -= 1;
        if reads_as(members[i].name.as_str(), key) {
            return Some(&members[i].value);
        }
    }
    None
}

/// Whether member `i` of `members` counts: no later member has its name.
pub fn is_last_of_name(members: &Vec<Member>, i: usize) -> (last: bool)
    requires
        i < members.len(),
    ensures
        last == counts(members_model(members@), i as int),
{
    let mut k: usize = i + 1;
    while k < members.len()
        invariant
            i < k <= members.len(),
            forall|n: int| i < n < k ==> (#[trigger] members_model(members@)[n]).0 != members_model(
                members@,
            )[i as int].0,
        decreases members.len() - k,
    {
        if members[k].name == members[i].name {
            assert(members_model(members@)[k as int].0 == members_model(members@)[i as int].0);
            return false;
        }
        k += 1;
    }
    true
}

impl Json {
    /// The value of the member named `key`, where this is an object that
    /// has one. Where a name stands more than once, its last member counts.
    pub fn get(&self, key: &str) -> (found: Option<&Json>)
        ensures
            match found {
                Some(value) => self@.member(key@) == Some(value@),
                None => self@.member(key@) is None,
            },
    {
        proof {
            lemma_view_of_parts(*self);
        }
        match self {
            Json::Object(members) => find_member(members, key),
            _ => None,
        }
    }

    /// The text, where this is a text.
    pub fn as_str(&self) -> (text: Option<&str>)
        ensures
            match text {
                Some(t) => self@.as_str() == Some(t@),
                None => self@.as_str() is None,
            },
    {
        match self {
            Json::Text(text) => Some(text.as_str()),
            _ => None,
        }
    }

    /// The members, where this is an object.
    pub fn as_object(&self) -> (members: Option<&Vec<Member>>)
        ensures
            match members {
                Some(m) => self@ == JsonModel::Object(members_model(m@)),
                None => !(self@ is Object),
            },
    {
        proof {
            lemma_view_of_parts(*self);
        }
        match self {
            Json::Object(members) => Some(members),
            _ => None,
        }
    }

    /// The items, where this is a list.
    pub fn as_array(&self) -> (items: Option<&Vec<Json>>)
        ensures
            match items {
                Some(v) => self@ == JsonModel::List(items_model(v@)),
                None => !(self@ is List),
            },
    {
        proof {
            lemma_view_of_parts(*self);
        }
        match self {
            Json::List(items) => Some(items),
            _ => None,
        }
    }

    /// The unsigned integer, where this is one.
    pub fn as_u64(&self) -> (number: Option<u64>)
        ensures
            number == self@.as_u64(),
    {
        match self {
            Json::Number(Number::PosInt(n)) => Some(*n),
            _ => None,
        }
    }

    /// The signed integer, where this is one that fits.
    pub fn as_i64(&self) -> (number: Option<i64>)
        ensures
            number == self@.as_i64(),
    {
        match self {
            Json::Number(Number::PosInt(n)) => if *n <= 9223372036854775807u64 {
                Some(*n as i64)
            } else {
                None
            },
            Json::Number(Number::NegInt(n)) => Some(*n),
            _ => None,
        }
    }

    /// A copy of this value, as deep as the value goes.
    #[verifier::loop_isolation(false)]
    pub fn duplicate(&self) -> (copy: Json)
        ensures
            copy@ == self@,
        decreases self,
    {
        broadcast use vstd::std_specs::vec::group_vec_axioms;

        match self {
            Json::Null => Json::Null,
            Json::Bool(b) => Json::Bool(*b),
            Json::Number(n) => Json::Number(n.duplicate()),
            Json::Text(text) => Json::Text(text.clone()),
            Json::List(items) => {
                let mut copies: Vec<Json> = Vec::new();
                let mut i: usize = 0;
                while i < items.len()
                    invariant
                        i <= items.len(),
                        copies.len() == i,
                        self == Json::List(*items),
                        forall|k: int| 0 <= k < i ==> copies@[k]@ == items@[k]@,
                    decreases items.len() - i,
                {
                    copies.push(items[i].duplicate());
                    i += 1;
                }
                let copy = Json::List(copies);
                assert(copy@->List_0 =~= self@->List_0);
                copy
            },
            Json::Object(members) => {
                let mut copies: Vec<Member> = Vec::new();
                let mut i: usize = 0;
                while i < members.len()
                    invariant
                        i <= members.len(),
                        copies.len() == i,
                        self == Json::Object(*members),
                        forall|k: int|
                            0 <= k < i ==> copies@[k].name@ == members@[k].name@ && copies@[k].value@
                                == members@[k].value@,
                    decreases members.len() - i,
                {
                    copies.push(
                        Member { name: members[i].name.clone(), value: members[i].value.duplicate() },
                    );
                    i += 1;
                }
                let copy = Json::Object(copies);
                assert(copy@->Object_0 =~= self@->Object_0);
                copy
            },
        }
    }
}

/// A number as it is written in a document.
pub open spec fn number_text(number: NumberModel) -> Seq<char> {
    match number {
        NumberModel::PosInt(n) => decimal(n as nat),
        NumberModel::NegInt(n) => signed_decimal(n as int),
        NumberModel::Float(text) => text,
    }
}

/// Appends to `out` the number as it is written in a document.
pub fn write_number(number: &Number, out: &mut Vec<char>)
    ensures
        final(out)@ == old(out)@ + number_text(number@),
{
    match number {
        Number::PosInt(n) => push_decimal(*n, out),
        Number::NegInt(n) => push_signed_decimal(*n, out),
        Number::Float(text) => {
            let chars = chars_of(text.as_str());
            append_chars(out, &chars);
        },
    }
}

/// `serde_json::Value`, as a type that is carried around and never looked into.
#[verifier::external_type_specification]
#[verifier::external_body]
pub struct ExValue(serde_json::Value);

/// The compact document text that `serde_json` writes for a value, with
/// nothing between the parts but commas and colons. An object is written
/// from the map that `serde_json` keeps of its members, which has one
/// member for each name.
pub uninterp spec fn document_text(value: JsonModel) -> Seq<char>;

/// The number as a `serde_json::Value`: made with `Value::from` of an
/// integer, and read with `serde_json::from_str` from the text of a
/// fraction; a text that is no number gives the null value.
#[verifier::external_body]
fn number_outside(number: &Number) -> serde_json::Value {
    match number {
        Number::PosInt(n) => serde_json::Value::from(*n),
        Number::NegInt(n) => serde_json::Value::from(*n),
        Number::Float(text) => serde_json::from_str(text).unwrap_or(serde_json::Value::Null),
    }
}

/// The value as a `serde_json::Value`, kind for kind: a list becomes
/// `Value::Array`, an object `Value::Object`, whose map takes the members
/// one after the other.
#[verifier::external_body]
fn outside(value: &Json) -> serde_json::Value {
    match value {
        Json::Null => serde_json::Value::Null,
        Json::Bool(b) => serde_json::Value::Bool(*b),
        Json::Number(n) => number_outside(n),
        Json::Text(text) => serde_json::Value::String(text.clone()),
        Json::List(items) => serde_json::Value::Array(items.iter().map(outside).collect()),
        Json::Object(members) => serde_json::Value::Object(
            members.iter().map(|m| (m.name.clone(), outside(&m.value))).collect(),
        ),
    }
}

/// What `serde_json` prints for the value (`Display` of `serde_json::Value`,
/// by way of `to_string`): its compact document text.
#[verifier::external_body]
fn written(value: &Json) -> (text: String)
    ensures
        text@ == document_text(value@),
{
    outside(value).to_string()
}

impl Json {
    /// Whether the two values are the same value: member order does not
    /// count in an object, and of the members of one name only the last.
    #[verifier::loop_isolation(false)]
    pub fn same(&self, other: &Json) -> (equal: bool)
        ensures
            equal == same_value(self@, other@),
        decreases self,
    {
        broadcast use vstd::std_specs::vec::group_vec_axioms;

        proof {
            lemma_view_of_parts(*self);
            lemma_view_of_parts(*other);
        }
        match (self, other) {
            (Json::Null, Json::Null) => true,
            (Json::Bool(a), Json::Bool(b)) => *a == *b,
            (Json::Number(a), Json::Number(b)) => a.same(b),
            (Json::Text(a), Json::Text(b)) => *a == *b,
            (Json::List(a), Json::List(b)) => {
                if a.len() != b.len() {
                    return false;
                }
                let ghost items = items_model(a@);
                let ghost others = items_model(b@);
                let mut i: usize = 0;
                while i < a.len()
                    invariant
                        i <= a.len(),
                        a.len() == b.len(),
                        forall|k: int| 0 <= k < i ==> same_value(#[trigger] items[k], others[k]),
                    decreases a.len() - i,
                {
                    assert(items[i as int] == a@[i as int]@ && others[i as int] == b@[i as int]@);
                    if !a[i].same(&b[i]) {
                        assert(!same_value(items[i as int], others[i as int]));
                        return false;
                    }
                    i += 1;
                }
                true
            },
            (Json::Object(a), Json::Object(b)) => {
                let ghost members = members_model(a@);
                let ghost others = members_model(b@);
                let mut i: usize = 0;
                while i < a.len()
                    invariant
                        i <= a.len(),
                        forall|k: int|
                            0 <= k < i && counts(members, k) ==> (match named_upto(
                                others,
                                others.len() as int,
                                (#[trigger] members[k]).0,
                            ) {
                                Some(value) => same_value(members[k].1, value),
                                None => false,
                            }),
                    decreases a.len() - i,
                {
                    assert(members[i as int] == (a@[i as int].name@, a@[i as int].value@));
                    if is_last_of_name(a, i) {
                        match find_member(b, a[i].name.as_str()) {
                            Some(value) => {
                                if !a[i].value.same(value) {
                                    assert(!same_value(members[i as int].1, value@));
                                    return false;
                                }
                            },
                            None => {
                                return false;
                            },
                        }
                    }
                    i += 1;
                }
                let mut j: usize = 0;
                while j < b.len()
                    invariant
                        j <= b.len(),
                        forall|k: int|
                            0 <= k < j ==> named_upto(
                                members,
                                members.len() as int,
                                (#[trigger] others[k]).0,
                            ) is Some,
                    decreases b.len() - j,
                {
                    assert(others[j as int] == (b@[j as int].name@, b@[j as int].value@));
                    if find_member(a, b[j].name.as_str()).is_none() {
                        return false;
                    }
                    j += 1;
                }
                true
            },
            _ => false,
        }
    }

    /// The value as it is written in a document, in the compact form.
    pub fn to_text(&self) -> (text: String)
        ensures
            text@ == document_text(self@),
    {
        written(self)
    }
}

/// The place of the member named `name` among the first `upto` of
/// `members`, if there is one.
pub open spec fn member_place(members: Seq<(Seq<char>, JsonModel)>, name: Seq<char>, upto: int) -> Option<
    int,
>
    decreases upto,
{
    if upto <= 0 || upto > members.len() {
        None
    } else if members[upto - 1].0 == name {
        Some(upto - 1)
    } else {
        member_place(members, name, upto - 1)
    }
}

/// `members` with one more member: a name that is there already gets the
/// new value in its place, a new one goes to the end.
pub open spec fn with_member(members: Seq<(Seq<char>, JsonModel)>, member: (Seq<char>, JsonModel)) -> Seq<
    (Seq<char>, JsonModel),
> {
    match member_place(members, member.0, members.len() as int) {
        Some(at) => members.update(at, member),
        None => members.push(member),
    }
}

/// Where a name has a place among the members, it stands there; where it
/// has none, it stands nowhere.
pub proof fn lemma_member_place(members: Seq<(Seq<char>, JsonModel)>, name: Seq<char>, upto: int)
    requires
        0 <= upto <= members.len(),
    ensures
        match member_place(members, name, upto) {
            Some(at) => 0 <= at < upto && members[at].0 == name,
            None => forall|k: int| 0 <= k < upto ==> (#[trigger] members[k]).0 != name,
        },
    decreases upto,
{
    if upto > 0 {
        lemma_member_place(members, name, upto - 1);
    }
}

/// Members with one more member keep their names apart, and the new member
/// is the one that its name finds.
pub proof fn lemma_with_member(members: Seq<(Seq<char>, JsonModel)>, member: (Seq<char>, JsonModel))
    ensures
        unique_names(members) ==> unique_names(with_member(members, member)),
        named_upto(
            with_member(members, member),
            with_member(members, member).len() as int,
            member.0,
        ) == Some(member.1) || !unique_names(members),
{
    lemma_member_place(members, member.0, members.len() as int);
    let after = with_member(members, member);
    match member_place(members, member.0, members.len() as int) {
        Some(at) => {
            if unique_names(members) {
                assert forall|i: int, j: int| 0 <= i < j < after.len() implies (#[trigger] after[i]).0
                    != (#[trigger] after[j]).0 by {
                    assert(after[i].0 == members[i].0);
                    assert(after[j].0 == members[j].0);
                }
                lemma_found_at(after, at, member.0, after.len() as int);
            }
        },
        None => {
            if unique_names(members) {
                assert forall|i: int, j: int| 0 <= i < j < after.len() implies (#[trigger] after[i]).0
                    != (#[trigger] after[j]).0 by {
                    if j < members.len() {
                        assert(after[i] == members[i] && after[j] == members[j]);
                    } else {
                        assert(after[i] == members[i]);
                    }
                }
            }
        },
    }
}

/// Among members whose names are kept apart, a name finds the member that
/// has it.
pub proof fn lemma_found_at(members: Seq<(Seq<char>, JsonModel)>, at: int, name: Seq<char>, upto: int)
    requires
        unique_names(members),
        0 <= at < upto <= members.len(),
        members[at].0 == name,
    ensures
        named_upto(members, upto, name) == Some(members[at].1),
    decreases upto,
{
    if upto - 1 > at {
        assert(members[at].0 != members[upto - 1].0);
        lemma_found_at(members, at, name, upto - 1);
    }
}

/// Puts `member` among `members`: in the place of the member of its name,
/// or at the end where no member has that name.
pub fn set_member(members: &mut Vec<Member>, member: Member)
    ensures
        members_model(final(members)@) == with_member(
            members_model(old(members)@),
            (member.name@, member.value@),
        ),
        unique_names(members_model(old(members)@)) ==> unique_names(members_model(final(members)@)),
{
    proof {
        lemma_with_member(members_model(members@), (member.name@, member.value@));
    }
    let ghost before = members_model(members@);
    let ghost added = (member.name@, member.value@);
    let mut i: usize = members.len();
    while i > 0
        invariant
            i <= members.len(),
            members@ == old(members)@,
            before == members_model(members@),
            added == (member.name@, member.value@),
            member_place(before, added.0, before.len() as int) == member_place(
                before,
                added.0,
                i as int,
            ),
        decreases i,
    {
        i -= 1;
        if members[i].name == member.name {
            assert(before[i as int].0 == added.0);
            members.set(i, member);
            assert(members_model(members@) =~= before.update(i as int, added));
            return ;
        }
    }
    members.push(member);
    assert(members_model(members@) =~= before.push(added));
}

/// The first `upto` of `members` put together one after the other: of the
/// members of one name the last is kept, in the place of the first.
pub open spec fn merged_upto(members: Seq<(Seq<char>, JsonModel)>, upto: int) -> Seq<
    (Seq<char>, JsonModel),
>
    decreases upto,
{
    if upto <= 0 || upto > members.len() {
        Seq::empty()
    } else {
        with_member(merged_upto(members, upto - 1), members[upto - 1])
    }
}

/// `members` with one member for each name.
pub open spec fn merged(members: Seq<(Seq<char>, JsonModel)>) -> Seq<(Seq<char>, JsonModel)> {
    merged_upto(members, members.len() as int)
}

/// Merged members have their names apart.
pub proof fn lemma_merged_unique(members: Seq<(Seq<char>, JsonModel)>, upto: int)
    requires
        0 <= upto <= members.len(),
    ensures
        unique_names(merged_upto(members, upto)),
    decreases upto,
{
    if upto > 0 {
        lemma_merged_unique(members, upto - 1);
        lemma_with_member(merged_upto(members, upto - 1), members[upto - 1]);
    }
}

/// `members` with one member for each name.
pub fn merge_members(members: Vec<Member>) -> (out: Vec<Member>)
    ensures
        members_model(out@) == merged(members_model(members@)),
        unique_names(members_model(out@)),
{
    let ghost models = members_model(members@);
    let mut members = members;
    let mut rest: Vec<Member> = Vec::new();
    while members.len() > 0
        invariant
            models.len() == members@.len() + rest@.len(),
            forall|k: int| 0 <= k < members@.len() ==> models[k] == (#[trigger] members@[k].name@, members@[k].value@),
            forall|k: int|
                0 <= k < rest@.len() ==> models[models.len() - 1 - k] == (
                    (#[trigger] rest@[k]).name@,
                    rest@[k].value@,
                ),
        decreases members.len(),
    {
        let last = members.pop();
        match last {
            Some(member) => {
                rest.push(member);
            },
            None => {},
        }
    }
    let mut out: Vec<Member> = Vec::new();
    assert(members_model(out@) =~= merged_upto(models, 0));
    while rest.len() > 0
        invariant
            rest@.len() <= models.len(),
            forall|k: int|
                0 <= k < rest@.len() ==> models[models.len() - 1 - k] == (
                    (#[trigger] rest@[k]).name@,
                    rest@[k].value@,
                ),
            members_model(out@) == merged_upto(models, models.len() - rest@.len()),
        decreases rest.len(),
    {
        let next = rest.pop();
        match next {
            Some(member) => {
                set_member(&mut out, member);
            },
            None => {},
        }
    }
    proof {
        lemma_merged_unique(models, models.len() as int);
    }
    out
}

} // verus!
