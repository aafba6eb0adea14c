use vstd::prelude::*;
use vstd::utf8::encode_utf8;
use crate::text::{alphabetic_char, is_alphabetic_char, is_float_text, is_float_syntax,
    is_int_syntax, int_val, is_numeric_char, numeric_char, parse_i64};
use regex::Regex;

verus! {

/// What matching a regular expression yields: whether the pattern, compiled
/// as a regex, matches somewhere in the text. It is a function of the two
/// texts alone; a pattern that does not compile matches nothing.
pub uninterp spec fn regex_match(pattern: Seq<char>, text: Seq<char>) -> bool;

/// Relies on regex::Regex::new and regex::Regex::is_match: compiling a fixed
/// pattern and testing it against a text is deterministic in the pattern and
/// the text; a pattern that does not compile is treated as matching nothing.
#[verifier::external_body]
fn pattern_matches(pattern: &str, text: &str) -> (r: bool)
    ensures
        r == regex_match(pattern@, text@),
{
    match Regex::new(pattern) {
        Ok(re) => re.is_match(text),
        Err(_) => false,
    }
}

/// The email shape: word characters, dots or dashes, an at sign, a domain
/// with a dotted last part.
pub open spec fn email_pattern() -> Seq<char> {
    "^[\\w\\.-]+@[\\w\\.-]+\\.\\w+$"@
}

/// The date shape: four digits, a month 01 to 12, a day 01 to 31.
pub open spec fn date_pattern() -> Seq<char> {
    "^\\d{4}-(0[1-9]|1[0-2])-(0[1-9]|[12]\\d|3[01])$"@
}

/// The time shape: hours 00 to 23, minutes and seconds 00 to 59.
pub open spec fn time_pattern() -> Seq<char> {
    "^(0[0-9]|1[0-9]|2[0-3]):[0-5][0-9]:[0-5][0-9]$"@
}

/// The URL shape: http or https, the separator, and no whitespace after it.
pub open spec fn url_pattern() -> Seq<char> {
    "^(http|https)://[^\\s/$.?#].[^\\s]*$"@
}

/// The phone number shape: an optional plus and 2 to 15 digits, the first
/// one not zero.
pub open spec fn phone_pattern() -> Seq<char> {
    "^\\+?[1-9]\\d{1,14}$"@
}

/// The postal code shape: five digits with an optional dash and four more.
pub open spec fn postal_code_pattern() -> Seq<char> {
    "^\\d{5}(-\\d{4})?$"@
}

/// The credit card shape: four groups of four digits, optionally dashed.
pub open spec fn credit_card_pattern() -> Seq<char> {
    "^\\d{4}-?\\d{4}-?\\d{4}-?\\d{4}$"@
}

/// The UUID shape: five dash-separated groups of hex digits, 8-4-4-4-12.
pub open spec fn uuid_pattern() -> Seq<char> {
    "^[0-9a-fA-F]{8}-[0-9a-fA-F]{4}-[0-9a-fA-F]{4}-[0-9a-fA-F]{4}-[0-9a-fA-F]{12}$"@
}

/// Whether the text holds no numeric character.
pub open spec fn name_ok(s: Seq<char>) -> bool {
    forall|i: int| 0 <= i < s.len() ==> !numeric_char(s[i])
}

/// Whether every character of the text is alphabetic.
pub open spec fn alpha_ok(s: Seq<char>) -> bool {
    forall|i: int| 0 <= i < s.len() ==> alphabetic_char(s[i])
}

/// Whether the text is an integer that fits in 32 signed bits.
pub open spec fn integer_ok(s: Seq<char>) -> bool {
    is_int_syntax(s) && -2147483648 <= int_val(s) <= 2147483647
}

/// The named validation predicates on raw typed-in text.
pub struct ValidationMethods;

impl ValidationMethods {
    /// Whether the name holds no numeric character.
    pub fn validate_name(name: &str) -> (r: bool)
        ensures
            r == name_ok(name@),
    {
        let n = name.unicode_len();
        let mut i: usize = 0;
        while i < n
            invariant
                i <= n,
                n == name@.len(),
                forall|k: int| 0 <= k < i ==> !numeric_char(name@[k]),
            decreases n - i,
        {
            if is_numeric_char(name.get_char(i)) {
                return false;
            }
            i = i + 1;
        }
        true
    }

    /// Whether the email has the email shape.
    pub fn validate_email(email: &str) -> (r: bool)
        ensures
            r == regex_match(email_pattern(), email@),
    {
        pattern_matches("^[\\w\\.-]+@[\\w\\.-]+\\.\\w+$", email)
    }

    /// Whether the value is not empty.
    pub fn not_empty(value: &str) -> (r: bool)
        ensures
            r == (value@.len() != 0),
    {
        !value.is_empty()
    }

    /// Whether the value is at least `min_length` bytes long.
    pub fn min_length(value: &str, min_length: usize) -> (r: bool)
        ensures
            r == (encode_utf8(value@).len() as usize >= min_length),
    {
        value.len() >= min_length
    }

    /// Whether the value is at most `max_length` bytes long.
    pub fn max_length(value: &str, max_length: usize) -> (r: bool)
        ensures
            r == (encode_utf8(value@).len() as usize <= max_length),
    {
        value.len() <= max_length
    }

    /// Whether every character of the value is alphabetic.
    pub fn is_alpha(value: &str) -> (r: bool)
        ensures
            r == alpha_ok(value@),
    {
        let n = value.unicode_len();
        let mut i: usize = 0;
        while i < n
            invariant
                i <= n,
                n == value@.len(),
                forall|k: int| 0 <= k < i ==> alphabetic_char(value@[k]),
            decreases n - i,
        {
            if !is_alphabetic_char(value.get_char(i)) {
                return false;
            }
            i = i + 1;
        }
        true
    }

    /// Whether the value is an integer that fits in 32 signed bits.
    pub fn is_integer(value: &str) -> (r: bool)
        ensures
            r == integer_ok(value@),
    {
        match parse_i64(value) {
            Option::Some(n) => -2147483648 <= n && n <= 2147483647,
            Option::None => false,
        }
    }

    /// Whether the value has the shape the standard 64-bit float parser
    /// accepts.
    pub fn is_float(value: &str) -> (r: bool)
        ensures
            r == is_float_syntax(value@),
    {
        is_float_text(value)
    }

    /// Whether the value has the date shape.
    pub fn is_date(value: &str) -> (r: bool)
        ensures
            r == regex_match(date_pattern(), value@),
    {
        pattern_matches("^\\d{4}-(0[1-9]|1[0-2])-(0[1-9]|[12]\\d|3[01])$", value)
    }

    /// Whether the value has the time shape.
    pub fn is_time(value: &str) -> (r: bool)
        ensures
            r == regex_match(time_pattern(), value@),
    {
        pattern_matches("^(0[0-9]|1[0-9]|2[0-3]):[0-5][0-9]:[0-5][0-9]$", value)
    }

    /// Whether the value has the URL shape.
    pub fn is_url(value: &str) -> (r: bool)
        ensures
            r == regex_match(url_pattern(), value@),
    {
        pattern_matches("^(http|https)://[^\\s/$.?#].[^\\s]*$", value)
    }

    /// Whether the value has the phone number shape.
    pub fn is_phone_number(value: &str) -> (r: bool)
        ensures
            r == regex_match(phone_pattern(), value@),
    {
        pattern_matches("^\\+?[1-9]\\d{1,14}$", value)
    }

    /// Whether the value has the postal code shape.
    pub fn is_postal_code(value: &str) -> (r: bool)
        ensures
            r == regex_match(postal_code_pattern(), value@),
    {
        pattern_matches("^\\d{5}(-\\d{4})?$", value)
    }

    /// Whether the value has the credit card shape.
    pub fn is_credit_card(value: &str) -> (r: bool)
        ensures
            r == regex_match(credit_card_pattern(), value@),
    {
        pattern_matches("^\\d{4}-?\\d{4}-?\\d{4}-?\\d{4}$", value)
    }

    /// Whether the value has the UUID shape.
    pub fn is_uuid(value: &str) -> (r: bool)
        ensures
            r == regex_match(uuid_pattern(), value@),
    {
        pattern_matches(
            "^[0-9a-fA-F]{8}-[0-9a-fA-F]{4}-[0-9a-fA-F]{4}-[0-9a-fA-F]{4}-[0-9a-fA-F]{12}$",
            value,
        )
    }
}

/// One validation predicate over raw typed-in text: either a named method
/// from `ValidationMethods`, or a length bound in bytes.
#[derive(Clone, Copy, Debug, PartialEq, Eq, Structural)]
pub enum Predicate {
    /// The value is not empty.
    NotEmpty,
    /// The value holds no numeric character.
    Name,
    /// The value has the email shape.
    Email,
    /// Every character of the value is alphabetic.
    Alpha,
    /// The value is an integer that fits in 32 signed bits.
    Integer,
    /// The value has the shape the standard 64-bit float parser accepts.
    Float,
    /// The value has the date shape.
    Date,
    /// The value has the time shape.
    Time,
    /// The value has the URL shape.
    Url,
    /// The value has the phone number shape.
    PhoneNumber,
    /// The value has the postal code shape.
    PostalCode,
    /// The value has the credit card shape.
    CreditCard,
    /// The value has the UUID shape.
    Uuid,
    /// The value is at least this many bytes long.
    MinLength(usize),
    /// The value is at most this many bytes long.
    MaxLength(usize),
}

/// Whether the predicate holds of the text.
pub open spec fn pred_holds(p: Predicate, s: Seq<char>) -> bool {
    match p {
        Predicate::NotEmpty => s.len() != 0,
        Predicate::Name => name_ok(s),
        Predicate::Email => regex_match(email_pattern(), s),
        Predicate::Alpha => alpha_ok(s),
        Predicate::Integer => integer_ok(s),
        Predicate::Float => is_float_syntax(s),
        Predicate::Date => regex_match(date_pattern(), s),
        Predicate::Time => regex_match(time_pattern(), s),
        Predicate::Url => regex_match(url_pattern(), s),
        Predicate::PhoneNumber => regex_match(phone_pattern(), s),
        Predicate::PostalCode => regex_match(postal_code_pattern(), s),
        Predicate::CreditCard => regex_match(credit_card_pattern(), s),
        Predicate::Uuid => regex_match(uuid_pattern(), s),
        Predicate::MinLength(n) => encode_utf8(s).len() as usize >= n,
        Predicate::MaxLength(n) => encode_utf8(s).len() as usize <= n,
    }
}

/// Evaluates one predicate on the text.
pub fn eval_predicate(p: &Predicate, s: &str) -> (r: bool)
    ensures
        r == pred_holds(*p, s@),
{
    match p {
        Predicate::NotEmpty => ValidationMethods::not_empty(s),
        Predicate::Name => ValidationMethods::validate_name(s),
        Predicate::Email => ValidationMethods::validate_email(s),
        Predicate::Alpha => ValidationMethods::is_alpha(s),
        Predicate::Integer => ValidationMethods::is_integer(s),
        Predicate::Float => ValidationMethods::is_float(s),
        Predicate::Date => ValidationMethods::is_date(s),
        Predicate::Time => ValidationMethods::is_time(s),
        Predicate::Url => ValidationMethods::is_url(s),
        Predicate::PhoneNumber => ValidationMethods::is_phone_number(s),
        Predicate::PostalCode => ValidationMethods::is_postal_code(s),
        Predicate::CreditCard => ValidationMethods::is_credit_card(s),
        Predicate::Uuid => ValidationMethods::is_uuid(s),
        Predicate::MinLength(n) => ValidationMethods::min_length(s, *n),
        Predicate::MaxLength(n) => ValidationMethods::max_length(s, *n),
    }
}

/// An ordered chain of predicates, each with an optional error message,
/// evaluated against raw typed-in text before parsing.
#[derive(Debug)]
pub struct Validator {
    /// The rules, in the order they are checked.
    pub validations: Vec<(Predicate, Option<String>)>,
}

/// The index of the first rule at or after `i` whose predicate fails on the
/// text, if any rule from there on fails.
pub open spec fn first_failing_from(
    rules: Seq<(Predicate, Option<String>)>,
    s: Seq<char>,
    i: int,
) -> Option<int>
    decreases rules.len() - i,
{
    if i < 0 || i >= rules.len() {
        None
    } else if !pred_holds(rules[i].0, s) {
        Some(i)
    } else {
        first_failing_from(rules, s, i + 1)
    }
}

/// The index of the first rule whose predicate fails on the text.
pub open spec fn first_failing(rules: Seq<(Predicate, Option<String>)>, s: Seq<char>) -> Option<
    int,
> {
    first_failing_from(rules, s, 0)
}

/// The message a failing rule reports: its own, or the generic default.
pub open spec fn rule_message(rule: (Predicate, Option<String>)) -> Seq<char> {
    match rule.1 {
        Some(m) => m@,
        None => "Invalid input, please try again."@,
    }
}

/// Validation settles on no rule exactly when every rule holds of the text.
pub proof fn lemma_validate_ok_means_all_hold(
    rules: Seq<(Predicate, Option<String>)>,
    s: Seq<char>,
)
    ensures
        (first_failing(rules, s) is None) <==> (forall|k: int|
            0 <= k < rules.len() ==> #[trigger] pred_holds(rules[k].0, s)),
{
    lemma_no_failure_from(rules, s, 0);
}

/// From `lo` on: the search settles on no rule exactly when every rule from
/// there on holds.
proof fn lemma_no_failure_from(rules: Seq<(Predicate, Option<String>)>, s: Seq<char>, lo: int)
    requires
        0 <= lo,
    ensures
        (first_failing_from(rules, s, lo) is None) <==> (forall|k: int|
            lo <= k < rules.len() ==> #[trigger] pred_holds(rules[k].0, s)),
    decreases rules.len() - lo,
{
    if lo < rules.len() {
        lemma_no_failure_from(rules, s, lo + 1);
    }
}

/// The short-circuit law: whenever some rule fails on the text, validation
/// settles on a failing rule that comes no later, every rule before it
/// holds, and so the reported message never depends on how the rules after
/// it behave.
pub proof fn lemma_first_failure_wins(
    rules: Seq<(Predicate, Option<String>)>,
    s: Seq<char>,
    i: int,
)
    requires
        0 <= i < rules.len(),
        !pred_holds(rules[i].0, s),
    ensures
        first_failing(rules, s) matches Some(j) ==> 0 <= j <= i && !pred_holds(rules[j].0, s)
            && (forall|k: int| 0 <= k < j ==> #[trigger] pred_holds(rules[k].0, s)),
        first_failing(rules, s) is Some,
{
    lemma_first_failing_minimal(rules, s, 0, i);
}

/// From `lo` on: if some rule at or after `lo` fails, the search settles on
/// the earliest one.
proof fn lemma_first_failing_minimal(
    rules: Seq<(Predicate, Option<String>)>,
    s: Seq<char>,
    lo: int,
    i: int,
)
    requires
        0 <= lo <= i < rules.len(),
        !pred_holds(rules[i].0, s),
    ensures
        first_failing_from(rules, s, lo) matches Some(j) ==> lo <= j <= i && !pred_holds(
            rules[j].0,
            s,
        ) && (forall|k: int| lo <= k < j ==> #[trigger] pred_holds(rules[k].0, s)),
        first_failing_from(rules, s, lo) is Some,
    decreases i - lo,
{
    if pred_holds(rules[lo].0, s) {
        lemma_first_failing_minimal(rules, s, lo + 1, i);
    }
}

impl Validator {
    /// A validator over the given rules.
    pub fn new(validations: Vec<(Predicate, Option<String>)>) -> (v: Self)
        ensures
            v.validations == validations,
    {
        Self { validations }
    }

    /// Checks the text against the rules in order. The first rule whose
    /// predicate fails decides the outcome: its message (or the generic
    /// default) comes back and no later rule is looked at. The text passes
    /// only when every rule holds.
    pub fn validate(&self, input: &str) -> (r: Result<(), String>)
        ensures
            match first_failing(self.validations@, input@) {
                None => r is Ok,
                Some(j) => r matches Err(m) && m@ == rule_message(self.validations@[j]),
            },
    {
        let n = self.validations.len();
        let mut i: usize = 0;
        while i < n
            invariant
                i <= n,
                n == self.validations@.len(),
                first_failing(self.validations@, input@) == first_failing_from(
                    self.validations@,
                    input@,
                    i as int,
                ),
            decreases n - i,
        {
            let rule = &self.validations[i];
            if !eval_predicate(&rule.0, input) {
                let m = match &rule.1 {
                    Option::Some(m) => m.clone(),
                    Option::None => String::from_str("Invalid input, please try again."),
                };
                return Err(m);
            }
            i = i + 1;
        }
        Ok(())
    }
}

} // verus!
