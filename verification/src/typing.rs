use vstd::prelude::*;
use crate::transcript::{is_space_char, is_wspace};

verus! {

/// Outcome of one keystroke-injection command, as reported back to the
/// caller of the command boundary.
pub struct TypeResult {
    pub success: bool,
    pub method: Option<String>,
    pub error: Option<String>,
    pub message: Option<String>,
}

impl TypeResult {
    /// The injection succeeded through the named method.
    pub fn succeeded(method: String) -> (r: TypeResult)
        ensures
            r.success,
            r.method matches Some(m) && m@ == method@,
            r.error is None,
            r.message is None,
    {
        TypeResult { success: true, method: Some(method), error: None, message: None }
    }

    /// The injection failed for the named reason.
    pub fn failed(error: String) -> (r: TypeResult)
        ensures
            !r.success,
            r.method is None,
            r.error matches Some(e) && e@ == error@,
            r.message is None,
    {
        TypeResult { success: false, method: None, error: Some(error), message: None }
    }
}

/// Whether the text holds nothing but whitespace — such a request is
/// rejected before any key is pressed.
pub open spec fn is_blank(s: Seq<char>) -> bool {
    forall|i: int| 0 <= i < s.len() ==> is_wspace(#[trigger] s[i])
}

/// Whether the text holds nothing but whitespace.
pub fn text_is_blank(text: &String) -> (r: bool)
    ensures
        r == is_blank(text@),
{
    let n = text.as_str().unicode_len();
    let mut i: usize = 0;
    while i < n
        invariant
            n == text@.len(),
            i <= n,
            forall|j: int| 0 <= j < i ==> is_wspace(#[trigger] text@[j]),
        decreases n - i,
    {
        let c = text.as_str().get_char(i);
        if !is_space_char(c) {
            return false;
        }
        i = i + 1;
    }
    true
}

/// Gate a typing request: blank text is refused with the fixed error
/// before any key is pressed; anything else may proceed.
pub fn typing_gate(text: &String) -> (r: Option<TypeResult>)
    ensures
        r is Some <==> is_blank(text@),
        r matches Some(t) ==> (!t.success && t.method is None && (t.error matches Some(e) && e@
            == "Empty text"@) && t.message is None),
{
    if text_is_blank(text) {
        Some(TypeResult::failed(String::from_str("Empty text")))
    } else {
        None
    }
}

/// How a finished transcription reaches the focused application:
/// a clipboard paste, key-by-key typing with a delay, or plain typing.
pub enum InputMethod {
    Paste,
    TypeDelayed,
    TypeFast,
}

/// Which injection method a request names: "paste" and "type_delayed"
/// select their methods, anything else the plain fast path.
pub open spec fn input_method_spec(s: Seq<char>) -> InputMethod {
    if s == "paste"@ {
        InputMethod::Paste
    } else if s == "type_delayed"@ {
        InputMethod::TypeDelayed
    } else {
        InputMethod::TypeFast
    }
}

/// Select the injection method a request names.
pub fn choose_input_method(input_method: &String) -> (m: InputMethod)
    ensures
        m == input_method_spec(input_method@),
{
    if input_method.eq(&String::from_str("paste")) {
        InputMethod::Paste
    } else if input_method.eq(&String::from_str("type_delayed")) {
        InputMethod::TypeDelayed
    } else {
        InputMethod::TypeFast
    }
}

/// The inter-character delay to use: the requested one, or 20 ms.
pub fn effective_delay(delay_ms: Option<u64>) -> (d: u64)
    ensures
        delay_ms matches Some(v) ==> d == v,
        delay_ms is None ==> d == 20,
{
    match delay_ms {
        Some(v) => v,
        None => 20,
    }
}

} // verus!
