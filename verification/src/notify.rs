//! Notification planning: which target a message goes to, the JSON body
//! of a webhook delivery, and the judgment of a delivery's outcome.

use vstd::prelude::*;
use crate::config::Config;
use crate::verdict::is_success_code;

verus! {

/// The JSON string literal that encodes `s`: quoted and escaped. The
/// encoding depends on the characters alone.
pub uninterp spec fn json_string_lit(s: Seq<char>) -> Seq<char>;

/// Relies on serde_json's `Display` for `Value`: a string value is
/// rendered as its JSON string literal, quoted and escaped, in the
/// compact form.
#[verifier::external_body]
fn json_encode_string(s: &str) -> (r: String)
    ensures
        r@ == json_string_lit(s@),
{
    serde_json::Value::String(s.to_string()).to_string()
}

/// The wire body of a webhook delivery: a JSON object with the single
/// field `text` holding the message.
pub open spec fn spec_webhook_payload(msg: Seq<char>) -> Seq<char> {
    "{\"text\":"@ + json_string_lit(msg) + "}"@
}

/// Build the JSON body that delivers `message` to the webhook.
pub fn webhook_payload(message: &str) -> (r: String)
    ensures
        r@ == spec_webhook_payload(message@),
{
    let mut s = String::from_str("{\"text\":");
    let lit = json_encode_string(message);
    s.append(lit.as_str());
    s.append("}");
    s
}

/// Where one notification goes: to the console log in test mode, or as
/// an HTTP POST of a JSON body to the webhook URL. Console delivery
/// always succeeds; webhook delivery is judged by `delivery_succeeded`.
pub enum NotifyAction {
    Console(String),
    Webhook { url: String, body: String },
}

/// Decide the delivery of one notification message: the console in test
/// mode, otherwise a POST of the JSON envelope to the configured webhook.
pub fn plan_notification(config: &Config, message: &str) -> (a: NotifyAction)
    ensures
        config.test_mode ==> (a matches NotifyAction::Console(m) && m@ == message@),
        !config.test_mode ==> (a matches NotifyAction::Webhook { url, body } && url@
            == config.slack_webhook@ && body@ == spec_webhook_payload(message@)),
{
    if config.test_mode {
        NotifyAction::Console(String::from_str(message))
    } else {
        NotifyAction::Webhook {
            url: config.slack_webhook.clone(),
            body: webhook_payload(message),
        }
    }
}

/// Whether a webhook delivery succeeded: a response arrived and its
/// status code is in the success class. A transport failure is `None`
/// and never counts as success.
pub fn delivery_succeeded(status: Option<u16>) -> (r: bool)
    ensures
        r == (status is Some && is_success_code(status->0)),
{
    match status {
        Option::Some(code) => 200 <= code && code < 300,
        Option::None => false,
    }
}

/// The character of one decimal digit.
pub open spec fn digit_char(d: int) -> char {
    if d == 0 {
        '0'
    } else if d == 1 {
        '1'
    } else if d == 2 {
        '2'
    } else if d == 3 {
        '3'
    } else if d == 4 {
        '4'
    } else if d == 5 {
        '5'
    } else if d == 6 {
        '6'
    } else if d == 7 {
        '7'
    } else if d == 8 {
        '8'
    } else {
        '9'
    }
}

/// The decimal numeral of `n`, most significant digit first, without
/// leading zeros.
pub open spec fn spec_decimal(n: int) -> Seq<char>
    decreases n,
{
    if n < 10 {
        seq![digit_char(n)]
    } else {
        spec_decimal(n / 10).push(digit_char(n % 10))
    }
}

fn digit_str(d: u16) -> (r: &'static str)
    requires
        d < 10,
    ensures
        r@ == seq![digit_char(d as int)],
{
    proof {
        reveal_strlit("0");
        reveal_strlit("1");
        reveal_strlit("2");
        reveal_strlit("3");
        reveal_strlit("4");
        reveal_strlit("5");
        reveal_strlit("6");
        reveal_strlit("7");
        reveal_strlit("8");
        reveal_strlit("9");
    }
    match d {
        0 => "0",
        1 => "1",
        2 => "2",
        3 => "3",
        4 => "4",
        5 => "5",
        6 => "6",
        7 => "7",
        8 => "8",
        _ => "9",
    }
}

/// The decimal numeral of a status code.
pub fn decimal_string(n: u16) -> (r: String)
    ensures
        r@ == spec_decimal(n as int),
    decreases n,
{
    if n < 10 {
        String::from_str(digit_str(n))
    } else {
        let mut s = decimal_string(n / 10);
        s.append(digit_str(n % 10));
        proof {
            assert(s@ =~= spec_decimal(n as int / 10).push(digit_char(n as int % 10)));
        }
        s
    }
}

/// The error detail logged when the webhook answers outside the success
/// class.
pub fn webhook_failure_message(code: u16) -> (r: String)
    ensures
        r@ == "Slack webhook returned status: "@ + spec_decimal(code as int),
{
    String::from_str("Slack webhook returned status: ").concat(decimal_string(code).as_str())
}

} // verus!
