use vstd::prelude::*;

verus! {

/// The character for a decimal digit.
pub open spec fn digit_char(d: nat) -> char {
    if d == 0 { '0' }
    else if d == 1 { '1' }
    else if d == 2 { '2' }
    else if d == 3 { '3' }
    else if d == 4 { '4' }
    else if d == 5 { '5' }
    else if d == 6 { '6' }
    else if d == 7 { '7' }
    else if d == 8 { '8' }
    else { '9' }
}

/// The decimal numeral of `n`, without sign or leading zeros.
pub open spec fn decimal(n: nat) -> Seq<char>
    decreases n,
{
    if n < 10 {
        seq![digit_char(n)]
    } else {
        decimal(n / 10) + seq![digit_char(n % 10)]
    }
}

/// What `serde_json` writes for a string: the JSON string literal holding it.
pub uninterp spec fn json_quoted(s: Seq<char>) -> Seq<char>;

/// Relies on `serde_json::to_string` applied to a `str`: it writes the JSON
/// string literal for the text, a function of the text alone. Writing into a
/// `Vec` cannot fail, so the error arm is never taken.
#[verifier::external_body]
fn json_quote(s: &str) -> (r: String)
    ensures
        r@ == json_quoted(s@),
{
    match serde_json::to_string(s) {
        Ok(q) => q,
        Err(_) => String::new(),
    }
}

fn digit_str(d: usize) -> (r: &'static str)
    requires
        d < 10,
    ensures
        r@ == seq![digit_char(d as nat)],
{
    proof {
        reveal_strlit("0");
        reveal_strlit("1");
        reveal_strlit("2");
        reveal_strlit("3");
        reveal_strlit("4");
        reveal_strlit("5");
        reveal_strlit("6");
        reveal_strlit("7");
        reveal_strlit("8");
        reveal_strlit("9");
    }
    if d == 0 { "0" }
    else if d == 1 { "1" }
    else if d == 2 { "2" }
    else if d == 3 { "3" }
    else if d == 4 { "4" }
    else if d == 5 { "5" }
    else if d == 6 { "6" }
    else if d == 7 { "7" }
    else if d == 8 { "8" }
    else { "9" }
}

/// The decimal numeral of `n`.
pub fn decimal_text(n: usize) -> (r: String)
    ensures
        r@ == decimal(n as nat),
    decreases n,
{
    if n < 10 {
        String::from_str(digit_str(n))
    } else {
        let mut s = decimal_text(n / 10);
        s.append(digit_str(n % 10));
        s
    }
}

/// A rendered outcome as text: on success the response already written as
/// JSON, on failure the error's description.
pub open spec fn rendered_view(r: Result<String, String>) -> Result<Seq<char>, Seq<char>> {
    match r {
        Ok(payload) => Ok(payload@),
        Err(msg) => Err(msg@),
    }
}

/// The key under which an outcome is logged.
pub open spec fn field_name(succeeded: bool) -> Seq<char> {
    if succeeded {
        "response"@
    } else {
        "error"@
    }
}

/// The status word logged for an outcome.
pub open spec fn status_word(succeeded: bool) -> Seq<char> {
    if succeeded {
        "success"@
    } else {
        "error"@
    }
}

/// The JSON value logged for an outcome: the response as rendered, or the
/// error's description as a JSON string.
pub open spec fn field_value(outcome: Result<Seq<char>, Seq<char>>) -> Seq<char> {
    match outcome {
        Ok(payload) => payload,
        Err(msg) => json_quoted(msg),
    }
}

/// A log line: one JSON object whose keys stand in sorted order, the response
/// or the error first, then the status word, then the task number.
pub open spec fn line_text(task: nat, succeeded: bool, value: Seq<char>) -> Seq<char> {
    "{\""@ + field_name(succeeded) + "\":"@ + value + ",\"status\":\""@ + status_word(succeeded)
        + "\",\"task\":"@ + decimal(task) + "}"@
}

/// The log line that records `outcome` for task number `task`.
pub open spec fn entry_text(task: nat, outcome: Result<Seq<char>, Seq<char>>) -> Seq<char> {
    line_text(task, outcome is Ok, field_value(outcome))
}

/// Frames the log line of task number `task` around `value`, a JSON value:
/// the response when `succeeded`, else the quoted error.
pub fn frame_line(task: usize, succeeded: bool, value: &str) -> (r: String)
    ensures
        r@ == line_text(task as nat, succeeded, value@),
{
    let number = decimal_text(task);
    let mut line = String::from_str("{\"");
    if succeeded {
        line.append("response");
    } else {
        line.append("error");
    }
    line.append("\":");
    line.append(value);
    line.append(",\"status\":\"");
    if succeeded {
        line.append("success");
    } else {
        line.append("error");
    }
    line.append("\",\"task\":");
    line.append(number.as_str());
    line.append("}");
    line
}

/// Builds the log line that records `rendered` as the outcome of task number
/// `task` (numbered from 1); an error's description is quoted as a JSON string.
pub fn log_line(task: usize, rendered: &Result<String, String>) -> (r: String)
    ensures
        r@ == entry_text(task as nat, rendered_view(*rendered)),
{
    match rendered {
        Ok(payload) => frame_line(task, true, payload.as_str()),
        Err(msg) => {
            let quoted = json_quote(msg.as_str());
            frame_line(task, false, quoted.as_str())
        },
    }
}

} // verus!
