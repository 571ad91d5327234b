//! Checks on the fields of requests.
use vstd::prelude::*;
use crate::conversation::{result_view, ConversationError, ConversationErrorView};
use crate::json::{Json, JsonView, object_of};
use crate::text::{opt_view, trim, trimmed};

verus! {

/// A text that must hold more than whitespace, trimmed.
pub open spec fn required(field: Seq<char>, value: Seq<char>) -> Result<Seq<char>, ConversationErrorView> {
    if trimmed(value).len() == 0 {
        Err(ConversationErrorView::BadRequest { reason: field + " must not be empty"@ })
    } else {
        Ok(trimmed(value))
    }
}

/// Trims a text that must hold more than whitespace.
pub fn required_text(field: &str, value: String) -> (r: Result<String, ConversationError>)
    ensures
        result_view(r) == required(field@, value@),
{
    let kept = trim(value.as_str());
    if kept.is_empty() {
        let mut reason = field.to_owned();
        reason.append(" must not be empty");
        Err(ConversationError::bad_request(reason))
    } else {
        Ok(kept.to_owned())
    }
}

/// The trimmed text, if anything is left of it.
pub open spec fn nonempty(value: Seq<char>) -> Option<Seq<char>> {
    if trimmed(value).len() == 0 {
        None
    } else {
        Some(trimmed(value))
    }
}

/// Trims a text that may be left out.
pub fn nonempty_option(value: String) -> (r: Option<String>)
    ensures
        opt_view(r) == nonempty(value@),
{
    let kept = trim(value.as_str());
    if kept.is_empty() {
        None
    } else {
        Some(kept.to_owned())
    }
}

/// Whether a value can stand where an object is expected.
pub open spec fn is_object_or_null(value: JsonView) -> bool {
    value is Null || value is Object
}

/// The error for a value that is neither an object nor `null`.
pub open spec fn not_an_object(field: Seq<char>) -> ConversationErrorView {
    ConversationErrorView::BadRequest { reason: field + " must be a JSON object"@ }
}

/// Accepts an object or `null`.
pub fn require_json_object(field: &str, value: &Json) -> (r: Result<(), ConversationError>)
    ensures
        r is Ok <==> is_object_or_null(value@),
        r matches Err(e) ==> e@ == not_an_object(field@),
{
    if value.is_null() || value.is_object() {
        Ok(())
    } else {
        let mut reason = field.to_owned();
        reason.append(" must be a JSON object");
        Err(ConversationError::bad_request(reason))
    }
}

/// The value, or the empty object in place of `null`.
pub open spec fn object_or_empty(value: JsonView) -> JsonView {
    if value is Null {
        object_of(Seq::empty())
    } else {
        value
    }
}

/// Replaces `null` by the empty object.
pub fn json_object_or_empty(value: Json) -> (r: Json)
    ensures
        r@ == object_or_empty(value@),
{
    if value.is_null() {
        Json::empty_object()
    } else {
        value
    }
}

/// A text that must be there is refused exactly if it is blank, by the name of its field, and
/// is trimmed otherwise; one that may be left out is left out exactly if it is blank.
pub proof fn law_texts_are_trimmed_or_refused(field: Seq<char>, value: Seq<char>)
    ensures
        trimmed(value).len() > 0 ==> required(field, value) == Ok::<Seq<char>, ConversationErrorView>(trimmed(value))
            && nonempty(value) == Some(trimmed(value)),
        trimmed(value).len() == 0 ==> nonempty(value) is None && required(field, value) == Err::<
            Seq<char>,
            ConversationErrorView,
        >(ConversationErrorView::BadRequest { reason: field + " must not be empty"@ }),
{
}

/// Where an object is wanted, `null` stands for the empty one, and nothing else is accepted.
pub proof fn law_null_stands_for_the_empty_object(value: JsonView, field: Seq<char>)
    ensures
        value is Object ==> is_object_or_null(value) && object_or_empty(value) == value,
        value is Null ==> is_object_or_null(value) && object_or_empty(value) == object_of(Seq::empty()),
        !(value is Object) && !(value is Null) ==> !is_object_or_null(value),
        not_an_object(field) == (ConversationErrorView::BadRequest { reason: field + " must be a JSON object"@ }),
{
}

} // verus!
