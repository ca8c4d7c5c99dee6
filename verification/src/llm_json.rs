use vstd::prelude::*;
use crate::text::{chars_of, push_str, append_chars, string_from_chars};

verus! {

/// What a JSON text holds under one key of its top-level object.
pub enum JsonMember {
    /// The text is not JSON; the parser's message.
    Unparsable(String),
    /// The text is JSON but has no such key (or is not an object).
    Absent,
    Bool(bool),
    Text(String),
    /// An array: each item as an unsigned integer, where it is one.
    Items(Vec<Option<u64>>),
    /// A number, `null` or an object.
    OtherValue,
}

pub enum JsonMemberView {
    Unparsable(Seq<char>),
    Absent,
    Bool(bool),
    Text(Seq<char>),
    Items(Seq<Option<u64>>),
    OtherValue,
}

impl View for JsonMember {
    type V = JsonMemberView;

    open spec fn view(&self) -> JsonMemberView {
        match self {
            JsonMember::Unparsable(e) => JsonMemberView::Unparsable(e@),
            JsonMember::Absent => JsonMemberView::Absent,
            JsonMember::Bool(b) => JsonMemberView::Bool(*b),
            JsonMember::Text(t) => JsonMemberView::Text(t@),
            JsonMember::Items(v) => JsonMemberView::Items(v@),
            JsonMember::OtherValue => JsonMemberView::OtherValue,
        }
    }
}

/// What serde_json reads in `text` under `key`.
pub uninterp spec fn json_member_of(text: Seq<char>, key: Seq<char>) -> JsonMemberView;

/// Calls `serde_json::from_str::<serde_json::Value>` on `text` and, on
/// success, `Value::get(key)`; the member is copied out by its kind (array
/// items through `Value::as_u64`), and a parse error by its message
/// (`Display`). The contract names the result: what serde_json reads is
/// not restated.
#[verifier::external_body]
fn json_member(text: &str, key: &str) -> (res: JsonMember)
    ensures
        res@ == json_member_of(text@, key@),
{
    match serde_json::from_str::<serde_json::Value>(text) {
        Err(e) => JsonMember::Unparsable(e.to_string()),
        Ok(v) => match v.get(key) {
            None => JsonMember::Absent,
            Some(serde_json::Value::Bool(b)) => JsonMember::Bool(*b),
            Some(serde_json::Value::String(s)) => JsonMember::Text(s.clone()),
            Some(serde_json::Value::Array(items)) => JsonMember::Items(items.iter().map(|i| i.as_u64()).collect()),
            Some(_) => JsonMember::OtherValue,
        },
    }
}

/// The model's `is_scam` answer: the boolean under "is_scam", if there is one.
pub fn is_scam_answer(llm_response: &str) -> (res: Option<bool>)
    ensures
        res == match json_member_of(llm_response@, "is_scam"@) {
            JsonMemberView::Bool(b) => Some(b),
            _ => None,
        },
{
    match json_member(llm_response, "is_scam") {
        JsonMember::Bool(b) => Some(b),
        _ => None,
    }
}

/// The unsigned integers among the items, in order.
pub open spec fn unsigned_items(items: Seq<Option<u64>>) -> Seq<usize>
    decreases items.len(),
{
    if items.len() == 0 {
        Seq::empty()
    } else {
        match items.last() {
            Some(n) => unsigned_items(items.drop_last()).push(n as usize),
            None => unsigned_items(items.drop_last()),
        }
    }
}

/// What the ranking model's answer gives: the order, or the text of the
/// error.
pub open spec fn order_answer(text: Seq<char>) -> Result<Seq<usize>, Seq<char>> {
    match json_member_of(text, "order"@) {
        JsonMemberView::Unparsable(e) => Err("Error parsing JSON: "@ + e),
        JsonMemberView::Items(items) => Ok(unsigned_items(items)),
        _ => Err("Error getting new order from LLM"@),
    }
}

/// The order of the search results that the ranking model chose: the
/// unsigned integers of the array under "order".
pub fn get_llm_order_from_response(llm_response: &str) -> (res: Result<Vec<usize>, String>)
    ensures
        match (res, order_answer(llm_response@)) {
            (Ok(v), Ok(s)) => v@ == s,
            (Err(e), Err(s)) => e@ == s,
            _ => false,
        },
{
    match json_member(llm_response, "order") {
        JsonMember::Unparsable(e) => {
            let mut out: Vec<char> = Vec::new();
            push_str(&mut out, "Error parsing JSON: ");
            let ec = chars_of(e.as_str());
            append_chars(&mut out, &ec);
            Err(string_from_chars(out.as_slice()))
        },
        JsonMember::Items(items) => {
            let mut order: Vec<usize> = Vec::new();
            let mut i: usize = 0;
            assert(items@.take(0) =~= Seq::<Option<u64>>::empty());
            while i < items.len()
                invariant
                    i <= items@.len(),
                    order@ == unsigned_items(items@.take(i as int)),
                decreases items.len() - i,
            {
                assert(items@.take(i + 1).drop_last() =~= items@.take(i as int));
                assert(items@.take(i + 1).last() == items@[i as int]);
                match items[i] {
                    Some(n) => order.push(n as usize),
                    None => {},
                }
                i = i + 1;
            }
            assert(items@.take(items@.len() as int) =~= items@);
            Ok(order)
        },
        _ => Err(string_from_chars(chars_of("Error getting new order from LLM").as_slice())),
    }
}

/// The transcription keywords after the model's check: the text under
/// "transcription_keywords" of its answer (`None`: the model could not be
/// asked), else the keywords as given.
pub fn validate_transcription_keywords(raw_transcription_keywords: String, llm_response: Option<&str>) -> (res: String)
    ensures
        res@ == match llm_response {
            Some(r) => match json_member_of(r@, "transcription_keywords"@) {
                JsonMemberView::Text(k) => k,
                _ => raw_transcription_keywords@,
            },
            None => raw_transcription_keywords@,
        },
{
    match llm_response {
        None => raw_transcription_keywords,
        Some(r) => match json_member(r, "transcription_keywords") {
            JsonMember::Text(k) => k,
            _ => raw_transcription_keywords,
        },
    }
}

/// The text the model is asked to check.
pub fn keywords_validation_request(raw_transcription_keywords: &str) -> (res: String)
    ensures
        res@ == "Raw transcription keywords: "@ + raw_transcription_keywords@,
{
    let mut out: Vec<char> = Vec::new();
    push_str(&mut out, "Raw transcription keywords: ");
    push_str(&mut out, raw_transcription_keywords);
    string_from_chars(out.as_slice())
}

} // verus!
