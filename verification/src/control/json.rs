//! JSON documents as trees, and their text through `serde_json`.
//!
//! The control protocol is JSON on the wire.  Reading and writing JSON text is
//! left to `serde_json`; what the messages look like as JSON is decided here
//! and in [`crate::control::codec`], over a tree that holds what the protocol
//! can make use of.

use vstd::prelude::*;
use crate::text::same_text;

verus! {

/// A JSON document.
#[derive(Debug, PartialEq, Eq)]
pub enum Json {
    Null,
    Bool(bool),
    /// A whole number from zero to `u64::MAX`
    Number(u64),
    /// Any other number: one that is negative, has a fraction or an exponent,
    /// or is too large.  Its value is not kept.
    OtherNumber,
    Text(String),
    Array(Vec<Json>),
    /// The members of an object, each a name and a value, in the order of
    /// the document
    Object(Vec<(String, Json)>),
}

/// The mathematical form of a [`Json`] document.
pub ghost enum JsonView {
    Null,
    Bool(bool),
    Number(u64),
    OtherNumber,
    Text(Seq<char>),
    Array(Seq<JsonView>),
    Object(Seq<(Seq<char>, JsonView)>),
}

/// The mathematical form of `tree`.
pub open spec fn view_of(tree: Json) -> JsonView
    decreases tree,
{
    match tree {
        Json::Null => JsonView::Null,
        Json::Bool(b) => JsonView::Bool(b),
        Json::Number(n) => JsonView::Number(n),
        Json::OtherNumber => JsonView::OtherNumber,
        Json::Text(text) => JsonView::Text(text@),
        Json::Array(items) => JsonView::Array(
            Seq::new(
                items@.len(),
                |i: int|
                    if 0 <= i < items@.len() {
                        view_of(items@[i])
                    } else {
                        JsonView::Null
                    },
            ),
        ),
        Json::Object(members) => JsonView::Object(
            Seq::new(
                members@.len(),
                |i: int|
                    if 0 <= i < members@.len() {
                        (members@[i].0@, view_of(members@[i].1))
                    } else {
                        (Seq::empty(), JsonView::Null)
                    },
            ),
        ),
    }
}

impl DeepView for Json {
    type V = JsonView;

    open spec fn deep_view(&self) -> JsonView {
        view_of(*self)
    }
}

impl JsonView {
    /// Whether every number in the document is kept with its value.
    pub open spec fn is_exact(self) -> bool
        decreases self,
    {
        match self {
            JsonView::OtherNumber => false,
            JsonView::Array(items) => forall|i: int|
                0 <= i < items.len() ==> (#[trigger] items[i]).is_exact(),
            JsonView::Object(members) => forall|i: int|
                0 <= i < members.len() ==> (#[trigger] members[i]).1.is_exact(),
            _ => true,
        }
    }
}

/// The value of the first member of `members` that is named `name`.
pub open spec fn member(members: Seq<(Seq<char>, JsonView)>, name: Seq<char>) -> Option<JsonView>
    decreases members.len(),
{
    if members.len() == 0 {
        None
    } else if members[0].0 == name {
        Some(members[0].1)
    } else {
        member(members.drop_first(), name)
    }
}

/// The value of the first member of `members` that is named `name`.
pub fn find_member<'a>(members: &'a Vec<(String, Json)>, name: &str) -> (found: Option<&'a Json>)
    ensures
        found.deep_view() == member(members_of(members@), name@),
{
    let ghost all = members_of(members@);
    let mut i: usize = 0;
    assert(all.skip(0) =~= all);
    while i < members.len()
        invariant
            i <= members.len(),
            all == members_of(members@),
            member(all, name@) == member(all.skip(i as int), name@),
        decreases members.len() - i,
    {
        assert(all.skip(i as int).drop_first() =~= all.skip(i + 1));
        assert(all.skip(i as int)[0] == all[i as int]);
        if same_text(members[i].0.as_str(), name) {
            return Some(&members[i].1);
        }
        i += 1;
    }
    None
}

/// The mathematical form of a list of documents.
pub open spec fn items_of(items: Seq<Json>) -> Seq<JsonView> {
    Seq::new(items.len(), |i: int| view_of(items[i]))
}

/// The mathematical form of a list of members.
pub open spec fn members_of(members: Seq<(String, Json)>) -> Seq<(Seq<char>, JsonView)> {
    Seq::new(members.len(), |i: int| (members[i].0@, view_of(members[i].1)))
}

/// The view of an array is the array of the views of its items.
pub proof fn lemma_array_view(items: Vec<Json>)
    ensures
        view_of(Json::Array(items)) == JsonView::Array(items_of(items@)),
{
    assert(view_of(Json::Array(items))->Array_0 =~= items_of(items@));
}

/// The view of an object is the object of the views of its members.
pub proof fn lemma_object_view(members: Vec<(String, Json)>)
    ensures
        view_of(Json::Object(members)) == JsonView::Object(members_of(members@)),
{
    assert(view_of(Json::Object(members))->Object_0 =~= members_of(members@));
}

/// A member whose name no earlier member has is the one that `member` finds.
pub proof fn lemma_member_at(members: Seq<(Seq<char>, JsonView)>, at: int)
    requires
        0 <= at < members.len(),
        forall|k: int| 0 <= k < at ==> (#[trigger] members[k]).0 != members[at].0,
    ensures
        member(members, members[at].0) == Some(members[at].1),
    decreases at,
{
    if at > 0 {
        let rest = members.drop_first();
        assert(members[0].0 != members[at].0);
        assert forall|k: int| 0 <= k < at - 1 implies (#[trigger] rest[k]).0 != rest[at - 1].0 by {
            assert(members[k + 1].0 != members[at].0);
        }
        lemma_member_at(rest, at - 1);
    }
}

/// A name that no member has is not found.
pub proof fn lemma_member_missing(members: Seq<(Seq<char>, JsonView)>, name: Seq<char>)
    requires
        forall|k: int| 0 <= k < members.len() ==> (#[trigger] members[k]).0 != name,
    ensures
        member(members, name) is None,
    decreases members.len(),
{
    if members.len() > 0 {
        let rest = members.drop_first();
        assert(members[0].0 != name);
        assert forall|k: int| 0 <= k < rest.len() implies (#[trigger] rest[k]).0 != name by {
            assert(members[k + 1].0 != name);
        }
        lemma_member_missing(rest, name);
    }
}

/// The text that the member `name` holds, if it is there and holds text.
pub open spec fn text_member(
    members: Seq<(Seq<char>, JsonView)>,
    name: Seq<char>,
) -> Option<Seq<char>> {
    match member(members, name) {
        Some(JsonView::Text(text)) => Some(text),
        _ => None,
    }
}

/// The text that the member `name` holds, where a member that is missing or
/// null holds none; `None` where the member holds anything else.
pub open spec fn optional_text_member(
    members: Seq<(Seq<char>, JsonView)>,
    name: Seq<char>,
) -> Option<Option<Seq<char>>> {
    match member(members, name) {
        None => Some(None),
        Some(JsonView::Null) => Some(None),
        Some(JsonView::Text(text)) => Some(Some(text)),
        _ => None,
    }
}

/// The number that the member `name` holds, if it is there and holds a
/// number of at most `limit`.
pub open spec fn number_member(
    members: Seq<(Seq<char>, JsonView)>,
    name: Seq<char>,
    limit: u64,
) -> Option<u64> {
    match member(members, name) {
        Some(JsonView::Number(n)) => if n <= limit {
            Some(n)
        } else {
            None
        },
        _ => None,
    }
}

/// The number that the member `name` holds, where a member that is missing
/// or null holds none; `None` where the member holds anything else, or a
/// number above `limit`.
pub open spec fn optional_number_member(
    members: Seq<(Seq<char>, JsonView)>,
    name: Seq<char>,
    limit: u64,
) -> Option<Option<u64>> {
    match member(members, name) {
        None => Some(None),
        Some(JsonView::Null) => Some(None),
        Some(JsonView::Number(n)) => if n <= limit {
            Some(Some(n))
        } else {
            None
        },
        _ => None,
    }
}

/// The truth value that the member `name` holds, if it is there and holds
/// one.
pub open spec fn bool_member(
    members: Seq<(Seq<char>, JsonView)>,
    name: Seq<char>,
) -> Option<bool> {
    match member(members, name) {
        Some(JsonView::Bool(b)) => Some(b),
        _ => None,
    }
}

/// The text that the member `name` holds.
pub fn get_text(members: &Vec<(String, Json)>, name: &str) -> (text: Option<String>)
    ensures
        text.deep_view() == text_member(members_of(members@), name@),
{
    proof {
        lemma_object_view(*members);
    }
    match find_member(members, name) {
        Some(Json::Text(text)) => Some(text.clone()),
        _ => None,
    }
}

/// The text that the member `name` holds, if any.
pub fn get_optional_text(
    members: &Vec<(String, Json)>,
    name: &str,
) -> (text: Option<Option<String>>)
    ensures
        text.deep_view() == optional_text_member(members_of(members@), name@),
{
    proof {
        lemma_object_view(*members);
    }
    match find_member(members, name) {
        None => Some(None),
        Some(Json::Null) => Some(None),
        Some(Json::Text(text)) => Some(Some(text.clone())),
        _ => None,
    }
}

/// The number that the member `name` holds, if it is at most `limit`.
pub fn get_number(members: &Vec<(String, Json)>, name: &str, limit: u64) -> (number: Option<u64>)
    ensures
        number == number_member(members_of(members@), name@, limit),
{
    proof {
        lemma_object_view(*members);
    }
    match find_member(members, name) {
        Some(Json::Number(n)) => if *n <= limit {
            Some(*n)
        } else {
            None
        },
        _ => None,
    }
}

/// The number that the member `name` holds, if any.
pub fn get_optional_number(
    members: &Vec<(String, Json)>,
    name: &str,
    limit: u64,
) -> (number: Option<Option<u64>>)
    ensures
        number == optional_number_member(members_of(members@), name@, limit),
{
    proof {
        lemma_object_view(*members);
    }
    match find_member(members, name) {
        None => Some(None),
        Some(Json::Null) => Some(None),
        Some(Json::Number(n)) => if *n <= limit {
            Some(Some(*n))
        } else {
            None
        },
        _ => None,
    }
}

/// The truth value that the member `name` holds.
pub fn get_bool(members: &Vec<(String, Json)>, name: &str) -> (value: Option<bool>)
    ensures
        value == bool_member(members_of(members@), name@),
{
    proof {
        lemma_object_view(*members);
    }
    match find_member(members, name) {
        Some(Json::Bool(b)) => Some(*b),
        _ => None,
    }
}

/// Appends a member to the members of an object.
pub fn put(members: &mut Vec<(String, Json)>, name: &str, value: Json)
    ensures
        members_of(final(members)@) == members_of(old(members)@).push((name@, view_of(value))),
{
    members.push((crate::text::owned(name), value));
    assert(members_of(members@) =~= members_of(old(members)@).push((name@, view_of(value))));
}

/// A document that holds a text, or null for none.
pub fn optional_text(text: &Option<String>) -> (tree: Json)
    ensures
        view_of(tree) == match text {
            Some(text) => JsonView::Text(text@),
            None => JsonView::Null,
        },
{
    match text {
        Some(text) => Json::Text(text.clone()),
        None => Json::Null,
    }
}

/// The document that `serde_json` reads from `text`, or `None` where it
/// reports an error.
pub uninterp spec fn json_document(text: Seq<char>) -> Option<JsonView>;

/// The text that `serde_json` writes for `tree` in its compact form, or
/// `None` where it reports an error.
pub uninterp spec fn json_text(tree: JsonView) -> Option<Seq<char>>;

/// The text that `serde_json` writes for `tree` in its indented form, or
/// `None` where it reports an error.
pub uninterp spec fn json_pretty_text(tree: JsonView) -> Option<Seq<char>>;

#[verifier::external_type_specification]
#[verifier::external_body]
pub struct ExJsonValue(serde_json::Value);

#[verifier::external_type_specification]
#[verifier::external_body]
pub struct ExJsonError(serde_json::Error);

/// Turns a value of `serde_json` into a tree, variant by variant.
///
/// Trusted: handles `serde_json::Value`; of a number it keeps what
/// `Number::as_u64` gives.  Nothing is claimed here; [`read_json`] names the
/// whole of reading.
#[verifier::external_body]
fn tree_of_value(value: serde_json::Value) -> (tree: Json) {
    match value {
        serde_json::Value::Null => Json::Null,
        serde_json::Value::Bool(b) => Json::Bool(b),
        serde_json::Value::Number(n) => match n.as_u64() {
            Some(n) => Json::Number(n),
            None => Json::OtherNumber,
        },
        serde_json::Value::String(text) => Json::Text(text),
        serde_json::Value::Array(items) => Json::Array(
            items.into_iter().map(tree_of_value).collect(),
        ),
        serde_json::Value::Object(members) => Json::Object(
            members.into_iter().map(|(name, value)| (name, tree_of_value(value))).collect(),
        ),
    }
}

/// Turns a tree into a value of `serde_json`, variant by variant.
///
/// Trusted: builds a `serde_json::Value`.  Nothing is claimed here;
/// [`write_json`] and [`write_json_pretty`] name the whole of writing.
#[verifier::external_body]
fn value_of_tree(tree: &Json) -> (value: serde_json::Value)
    requires
        tree.deep_view().is_exact(),
{
    match tree {
        Json::Null | Json::OtherNumber => serde_json::Value::Null,
        Json::Bool(b) => serde_json::Value::Bool(*b),
        Json::Number(n) => serde_json::Value::from(*n),
        Json::Text(text) => serde_json::Value::String(text.clone()),
        Json::Array(items) => serde_json::Value::Array(items.iter().map(value_of_tree).collect()),
        Json::Object(members) => serde_json::Value::Object(
            members.iter().map(|(name, value)| (name.clone(), value_of_tree(value))).collect(),
        ),
    }
}

/// Reads a JSON document from text.
///
/// Trusted: `serde_json::from_str` at the type `serde_json::Value`.  The
/// contract names the outcome [`json_document`] and claims nothing else of
/// it.
#[verifier::external_body]
pub(crate) fn read_json(text: &str) -> (outcome: Result<Json, serde_json::Error>)
    ensures
        match outcome {
            Ok(tree) => json_document(text@) == Some(tree.deep_view()),
            Err(_) => json_document(text@) is None,
        },
{
    match serde_json::from_str::<serde_json::Value>(text) {
        Ok(value) => Ok(tree_of_value(value)),
        Err(error) => Err(error),
    }
}

/// Writes a JSON document as compact text.
///
/// Trusted: `serde_json::to_string` of a `serde_json::Value`.  The contract
/// names the outcome [`json_text`] and claims nothing else of it.
#[verifier::external_body]
pub(crate) fn write_json(tree: &Json) -> (outcome: Result<String, serde_json::Error>)
    requires
        tree.deep_view().is_exact(),
    ensures
        match outcome {
            Ok(text) => json_text(tree.deep_view()) == Some(text@),
            Err(_) => json_text(tree.deep_view()) is None,
        },
{
    serde_json::to_string(&value_of_tree(tree))
}

/// Writes a JSON document as indented text.
///
/// Trusted: `serde_json::to_string_pretty` of a `serde_json::Value`.  The
/// contract names the outcome [`json_pretty_text`] and claims nothing else
/// of it.
#[verifier::external_body]
pub(crate) fn write_json_pretty(tree: &Json) -> (outcome: Result<String, serde_json::Error>)
    requires
        tree.deep_view().is_exact(),
    ensures
        match outcome {
            Ok(text) => json_pretty_text(tree.deep_view()) == Some(text@),
            Err(_) => json_pretty_text(tree.deep_view()) is None,
        },
{
    serde_json::to_string_pretty(&value_of_tree(tree))
}

/// The message of an error of `serde_json`.
///
/// Trusted: the `Display` form of `serde_json::Error`.  Nothing is claimed
/// of the text.
#[verifier::external_body]
pub(crate) fn json_error_text(error: &serde_json::Error) -> (text: String) {
    format!("{}", error)
}

/// An array with an item that is not exact is not exact.
proof fn lemma_array_not_exact(items: Seq<JsonView>, at: int)
    requires
        0 <= at < items.len(),
        !items[at].is_exact(),
    ensures
        !JsonView::Array(items).is_exact(),
{
    let tree = JsonView::Array(items);
    assert(decreases_to!(tree => tree->Array_0[at]));
    if JsonView::Array(items).is_exact() {
        assert(items[at].is_exact());
    }
}

/// An object with a member that is not exact is not exact.
proof fn lemma_object_not_exact(members: Seq<(Seq<char>, JsonView)>, at: int)
    requires
        0 <= at < members.len(),
        !members[at].1.is_exact(),
    ensures
        !JsonView::Object(members).is_exact(),
{
    let tree = JsonView::Object(members);
    assert(decreases_to!(tree => tree->Object_0[at].1));
    if JsonView::Object(members).is_exact() {
        assert(members[at].1.is_exact());
    }
}

/// Whether every number in the document is kept with its value.
pub fn is_exact(tree: &Json) -> (exact: bool)
    ensures
        exact == tree.deep_view().is_exact(),
    decreases tree,
{
    match tree {
        Json::OtherNumber => false,
        Json::Array(items) => {
            proof {
                lemma_array_view(*items);
            }
            let mut i: usize = 0;
            while i < items.len()
                invariant
                    i <= items.len(),
                    tree == Json::Array(*items),
                    tree.deep_view() == JsonView::Array(items_of(items@)),
                    forall|k: int| 0 <= k < i ==> (#[trigger] items_of(items@)[k]).is_exact(),
                decreases items.len() - i,
            {
                assert(decreases_to!(*items => (*items)[i as int]));
                if !is_exact(&items[i]) {
                    assert(!items_of(items@)[i as int].is_exact());
                    proof {
                        lemma_array_not_exact(items_of(items@), i as int);
                    }
                    return false;
                }
                i += 1;
            }
            true
        },
        Json::Object(members) => {
            proof {
                lemma_object_view(*members);
            }
            let mut i: usize = 0;
            while i < members.len()
                invariant
                    i <= members.len(),
                    tree == Json::Object(*members),
                    tree.deep_view() == JsonView::Object(members_of(members@)),
                    forall|k: int| 0 <= k < i ==> (#[trigger] members_of(members@)[k]).1.is_exact(),
                decreases members.len() - i,
            {
                assert(decreases_to!(*members => (*members)[i as int]));
                if !is_exact(&members[i].1) {
                    assert(!members_of(members@)[i as int].1.is_exact());
                    proof {
                        lemma_object_not_exact(members_of(members@), i as int);
                    }
                    return false;
                }
                i += 1;
            }
            true
        },
        _ => true,
    }
}

/// Whether two documents are the same.
pub fn same_tree(a: &Json, b: &Json) -> (same: bool)
    ensures
        same == (a.deep_view() == b.deep_view()),
    decreases a,
{
    match (a, b) {
        (Json::Null, Json::Null) => true,
        (Json::Bool(x), Json::Bool(y)) => *x == *y,
        (Json::Number(x), Json::Number(y)) => *x == *y,
        (Json::OtherNumber, Json::OtherNumber) => true,
        (Json::Text(x), Json::Text(y)) => same_text(x.as_str(), y.as_str()),
        (Json::Array(xs), Json::Array(ys)) => {
            proof {
                lemma_array_view(*xs);
                lemma_array_view(*ys);
            }
            if xs.len() != ys.len() {
                assert(items_of(xs@).len() != items_of(ys@).len());
                return false;
            }
            let mut i: usize = 0;
            while i < xs.len()
                invariant
                    i <= xs.len(),
                    xs.len() == ys.len(),
                    a == Json::Array(*xs),
                    a.deep_view() == JsonView::Array(items_of(xs@)),
                    b.deep_view() == JsonView::Array(items_of(ys@)),
                    forall|k: int| 0 <= k < i ==> items_of(xs@)[k] == items_of(ys@)[k],
                decreases xs.len() - i,
            {
                assert(decreases_to!(*xs => (*xs)[i as int]));
                if !same_tree(&xs[i], &ys[i]) {
                    assert(items_of(xs@)[i as int] != items_of(ys@)[i as int]);
                    return false;
                }
                i += 1;
            }
            assert(items_of(xs@) =~= items_of(ys@));
            true
        },
        (Json::Object(xs), Json::Object(ys)) => {
            proof {
                lemma_object_view(*xs);
                lemma_object_view(*ys);
            }
            if xs.len() != ys.len() {
                assert(members_of(xs@).len() != members_of(ys@).len());
                return false;
            }
            let mut i: usize = 0;
            while i < xs.len()
                invariant
                    i <= xs.len(),
                    xs.len() == ys.len(),
                    a == Json::Object(*xs),
                    a.deep_view() == JsonView::Object(members_of(xs@)),
                    b.deep_view() == JsonView::Object(members_of(ys@)),
                    forall|k: int| 0 <= k < i ==> members_of(xs@)[k] == members_of(ys@)[k],
                decreases xs.len() - i,
            {
                assert(decreases_to!(*xs => (*xs)[i as int]));
                if !same_text(xs[i].0.as_str(), ys[i].0.as_str()) || !same_tree(&xs[i].1, &ys[i].1) {
                    assert(members_of(xs@)[i as int] != members_of(ys@)[i as int]);
                    return false;
                }
                i += 1;
            }
            assert(members_of(xs@) =~= members_of(ys@));
            true
        },
        _ => false,
    }
}

/// What can go wrong between a message and its text.
#[derive(Debug, Clone, PartialEq, Eq)]
pub enum WireError {
    /// The text is not JSON; with the message of the parser
    Syntax(String),
    /// The text is JSON, but not a message of the kind looked for
    Shape,
    /// The document could not be written; with the message of the writer
    Unwritable(String),
}

/// The mathematical form of a [`WireError`].
pub ghost enum WireErrorView {
    Syntax(Seq<char>),
    Shape,
    Unwritable(Seq<char>),
}

impl DeepView for WireError {
    type V = WireErrorView;

    open spec fn deep_view(&self) -> WireErrorView {
        match self {
            WireError::Syntax(message) => WireErrorView::Syntax(message@),
            WireError::Shape => WireErrorView::Shape,
            WireError::Unwritable(message) => WireErrorView::Unwritable(message@),
        }
    }
}

impl WireError {
    /// The words that describe a document that is not a message.
    pub open spec fn shape_text() -> Seq<char> {
        "not a message of the control protocol"@
    }

    /// The error in words.
    pub fn to_text(&self) -> (text: String)
        ensures
            self is Shape ==> text@ == Self::shape_text(),
            self matches WireError::Syntax(message) ==> text@ == message@,
            self matches WireError::Unwritable(message) ==> text@ == message@,
    {
        match self {
            WireError::Syntax(message) => message.clone(),
            WireError::Shape => crate::text::owned("not a message of the control protocol"),
            WireError::Unwritable(message) => message.clone(),
        }
    }
}

/// Reads a JSON document from text.  Fails with a syntax error, and only
/// with one, where the text is not JSON.
pub fn read_document(text: &str) -> (outcome: Result<Json, WireError>)
    ensures
        match outcome {
            Ok(tree) => json_document(text@) == Some(tree.deep_view()),
            Err(error) => json_document(text@) is None && error is Syntax,
        },
{
    match read_json(text) {
        Ok(tree) => Ok(tree),
        Err(error) => Err(WireError::Syntax(json_error_text(&error))),
    }
}

/// The outcome of writing `tree` as text in the compact form: nothing is
/// written for a document that has lost the value of a number.
pub open spec fn written(tree: JsonView) -> Option<Seq<char>> {
    if tree.is_exact() {
        json_text(tree)
    } else {
        None
    }
}

/// The outcome of writing `tree` as text in the indented form.
pub open spec fn written_pretty(tree: JsonView) -> Option<Seq<char>> {
    if tree.is_exact() {
        json_pretty_text(tree)
    } else {
        None
    }
}

/// Writes a JSON document as compact text.
pub fn write_document(tree: &Json) -> (outcome: Result<String, WireError>)
    ensures
        match outcome {
            Ok(text) => written(tree.deep_view()) == Some(text@),
            Err(error) => written(tree.deep_view()) is None && error is Unwritable,
        },
{
    if !is_exact(tree) {
        return Err(WireError::Unwritable(crate::text::owned("a number has no value")));
    }
    match write_json(tree) {
        Ok(text) => Ok(text),
        Err(error) => Err(WireError::Unwritable(json_error_text(&error))),
    }
}

/// Writes a JSON document as indented text.
pub fn write_document_pretty(tree: &Json) -> (outcome: Result<String, WireError>)
    ensures
        match outcome {
            Ok(text) => written_pretty(tree.deep_view()) == Some(text@),
            Err(error) => written_pretty(tree.deep_view()) is None && error is Unwritable,
        },
{
    if !is_exact(tree) {
        return Err(WireError::Unwritable(crate::text::owned("a number has no value")));
    }
    match write_json_pretty(tree) {
        Ok(text) => Ok(text),
        Err(error) => Err(WireError::Unwritable(json_error_text(&error))),
    }
}

/// Whether `tree` can be written as text that reads as `tree` again.
pub open spec fn reads_back(tree: JsonView) -> bool {
    written(tree) matches Some(text) && json_document(text) == Some(tree)
}

/// Writes a JSON document as compact text and makes sure of the text by
/// reading it back: the text that comes out reads as the document again.
/// It fails exactly where the document cannot be written or its text does
/// not read as the document.
pub fn write_checked(tree: &Json) -> (outcome: Result<String, WireError>)
    ensures
        match outcome {
            Ok(text) => {
                &&& written(tree.deep_view()) == Some(text@)
                &&& json_document(text@) == Some(tree.deep_view())
            },
            Err(error) => error is Unwritable && !reads_back(tree.deep_view()),
        },
{
    let text = match write_document(tree) {
        Ok(text) => text,
        Err(error) => {
            return Err(error);
        },
    };
    match read_json(text.as_str()) {
        Ok(back) => if same_tree(&back, tree) {
            Ok(text)
        } else {
            Err(WireError::Unwritable(crate::text::owned("the text reads as another document")))
        },
        Err(error) => Err(WireError::Unwritable(json_error_text(&error))),
    }
}

} // verus!
