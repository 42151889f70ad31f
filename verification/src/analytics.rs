//! Reading the analytics category out of the JSON text that the analysis service
//! answers with.

use lite_json::JsonValue as Jv;
use vstd::prelude::*;
use vstd::utf8::{decode_utf8, valid_utf8};

verus! {

/// The value of a member of a JSON object: for a number, the digits before its decimal
/// point, without the sign; for another value, its kind.
#[derive(Clone, Copy, Debug, PartialEq, Eq, Structural)]
pub enum JsonMember {
    Object,
    Array,
    Text,
    Number(u64),
    Boolean,
    Null,
}

/// A member of a JSON object: its key and its value.
pub struct JsonEntry {
    pub key: Vec<char>,
    pub value: JsonMember,
}

/// A parsed JSON document: an object with its members in order, or another value.
pub enum JsonDocument {
    Object(Vec<JsonEntry>),
    Value(JsonMember),
}

/// The members of an object, each as its key and its value.
pub type Members = Seq<(Seq<char>, JsonMember)>;

impl View for JsonDocument {
    type V = Option<Members>;

    open spec fn view(&self) -> Option<Members> {
        match self {
            JsonDocument::Object(entries) => Some(
                entries@.map_values(|e: JsonEntry| (e.key@, e.value)),
            ),
            _ => None,
        }
    }
}

/// What `lite_json::parse_json` makes of a text: `None` where it refuses the text,
/// `Some(None)` for a JSON value that is not an object, `Some(Some(members))` for an
/// object with those members in order.
pub uninterp spec fn lite_json_parse(text: Seq<char>) -> Option<Option<Members>>;

pub open spec fn is_ascii_digit(c: char) -> bool {
    '0' as u32 <= c as u32 <= '9' as u32
}

pub open spec fn is_exponent_mark(c: char) -> bool {
    c == 'e' || c == 'E'
}

pub open spec fn is_sign(c: char) -> bool {
    c == '+' || c == '-'
}

/// Where a scan of the first `n` characters of `s` stands: whether it is inside a
/// string, and whether the last character was a backslash that escapes the next one.
pub open spec fn lex_state(s: Seq<char>, n: int) -> (bool, bool)
    decreases n,
{
    if n <= 0 {
        (false, false)
    } else {
        let prev = lex_state(s, n - 1);
        let c = s[n - 1];
        if !prev.0 {
            (c == '"', false)
        } else if prev.1 {
            (true, false)
        } else if c == '\\' {
            (true, true)
        } else {
            (c != '"', false)
        }
    }
}

/// Position `i` starts a run of digits outside every string.
pub open spec fn run_start(s: Seq<char>, i: int) -> bool {
    &&& 0 <= i < s.len()
    &&& is_ascii_digit(s[i])
    &&& !lex_state(s, i).0
    &&& (i == 0 || !is_ascii_digit(s[i - 1]))
}

/// The end of the run of digits that goes on at position `i`.
pub open spec fn run_end(s: Seq<char>, i: int) -> int
    decreases s.len() - i,
{
    if 0 <= i < s.len() && is_ascii_digit(s[i]) {
        run_end(s, i + 1)
    } else {
        i
    }
}

pub open spec fn digit_value(c: char) -> int {
    c as u32 - '0' as u32
}

/// The decimal value of the digits of `s` from `i` up to `j`.
pub open spec fn digits_value(s: Seq<char>, i: int, j: int) -> int
    decreases j - i,
{
    if j <= i {
        0
    } else {
        digits_value(s, i, j - 1) * 10 + digit_value(s[j - 1])
    }
}

/// The run at `i` is the exponent of a number: it follows an exponent mark, with or
/// without a sign in between.
pub open spec fn run_is_exponent(s: Seq<char>, i: int) -> bool {
    ||| (i >= 1 && is_exponent_mark(s[i - 1]))
    ||| (i >= 2 && is_sign(s[i - 1]) && is_exponent_mark(s[i - 2]))
}

/// The run at `i` is the integer part of a number: neither an exponent nor a fraction.
pub open spec fn run_is_integer(s: Seq<char>, i: int) -> bool {
    !run_is_exponent(s, i) && !(i >= 1 && s[i - 1] == '.')
}

/// The largest value the parser holds for the run at `i`: an `i32` for an exponent, a
/// `u64` for an integer part or a fraction.
pub open spec fn run_limit(s: Seq<char>, i: int) -> int {
    if run_is_exponent(s, i) {
        i32::MAX as int
    } else {
        u64::MAX as int
    }
}

/// The parser holds the value of the run at `i` without overflow: an integer part that
/// begins with 0 is read as the single digit 0; any other run is read whole.
pub open spec fn run_fits(s: Seq<char>, i: int) -> bool {
    ||| (run_is_integer(s, i) && s[i] == '0')
    ||| digits_value(s, i, run_end(s, i)) <= run_limit(s, i)
}

/// Every run of digits outside the strings of the text fits the bound of its place: a
/// run after an exponent mark (and its sign) is at most `i32::MAX`; any other run is at
/// most `u64::MAX`, unless it follows no `.` and begins with 0. The parser reads numbers
/// only outside strings, each integer part, fraction and exponent being a whole run of
/// digits, and its arithmetic overflows exactly on an integer part or fraction above
/// `u64::MAX` or an exponent above `i32::MAX`; so on a text that meets this condition it
/// does not overflow. Runs that the parser never reaches (after a syntax error) are held
/// to the same bounds.
pub open spec fn digit_runs_fit(s: Seq<char>) -> bool {
    forall|i: int| run_start(s, i) ==> run_fits(s, i)
}

/// The key `CATEGORY`.
pub open spec fn category_key() -> Seq<char> {
    seq!['C', 'A', 'T', 'E', 'G', 'O', 'R', 'Y']
}

/// The category that the first member keyed `CATEGORY` gives: the integer part of its
/// number, cut to 32 bits; nothing when there is no such member or it is not a number.
pub open spec fn category_in(members: Members) -> Option<u32>
    decreases members.len(),
{
    if members.len() == 0 {
        None
    } else if members[0].0 == category_key() {
        match members[0].1 {
            JsonMember::Number(integer) => Some(integer as u32),
            _ => None,
        }
    } else {
        category_in(members.drop_first())
    }
}

/// The category that a parse result gives: only an object can hold one.
pub open spec fn category_of(parsed: Option<Option<Members>>) -> Option<u32> {
    match parsed {
        Some(Some(members)) => category_in(members),
        _ => None,
    }
}

/// `lite_json::parse_json` on `text`, with the members of an object converted one for
/// one: a number to the digits before its decimal point, any other value to its kind.
/// The contract only names the result. The requirement keeps out the texts with a number
/// whose integer part or fraction passes `u64::MAX` or whose exponent passes `i32::MAX`,
/// on which the parser's digit arithmetic overflows.
#[verifier::external_body]
fn parse_json(text: &str) -> (r: Option<JsonDocument>)
    requires
        digit_runs_fit(text@),
    ensures
        match r {
            Some(doc) => lite_json_parse(text@) == Some(doc@),
            None => lite_json_parse(text@) is None,
        },
{
    let member = |v: Jv| match v {
        Jv::Object(_) => JsonMember::Object, Jv::Array(_) => JsonMember::Array,
        Jv::String(_) => JsonMember::Text, Jv::Number(n) => JsonMember::Number(n.integer),
        Jv::Boolean(_) => JsonMember::Boolean, Jv::Null => JsonMember::Null,
    };
    match lite_json::parse_json(text).ok()? {
        Jv::Object(members) => Some(JsonDocument::Object(
            members.into_iter().map(|(key, value)| JsonEntry { key, value: member(value) }).collect())),
        other => Some(JsonDocument::Value(member(other))),
    }
}

/// `std::str::from_utf8`: the bytes read as text, if they are valid UTF-8.
#[verifier::external_body]
fn str_from_utf8(bytes: &[u8]) -> (r: Option<&str>)
    ensures
        r is Some <==> valid_utf8(bytes@),
        r matches Some(text) ==> text@ == decode_utf8(bytes@),
{
    std::str::from_utf8(bytes).ok()
}

/// The characters of `text`, in order.
pub fn chars_of(text: &str) -> (v: Vec<char>)
    ensures
        v@ == text@,
{
    broadcast use vstd::string::axiom_spec_iter;

    let mut v: Vec<char> = Vec::new();
    for c in it: text.chars()
        invariant
            v@ == it.seq().take(it.index()),
            it.seq() == text@,
    {
        v.push(c);
    }
    v
}

fn is_digit_char(c: char) -> (b: bool)
    ensures
        b == is_ascii_digit(c),
{
    let u = c as u32;
    48 <= u && u <= 57
}

/// A run of digits reaches at least as far as its start, and holds only digits.
proof fn lemma_run_end(s: Seq<char>, k: int)
    requires
        0 <= k <= s.len(),
    ensures
        k <= run_end(s, k) <= s.len(),
        forall|m: int| k <= m < run_end(s, k) ==> is_ascii_digit(#[trigger] s[m]),
    decreases s.len() - k,
{
    if k < s.len() && is_ascii_digit(s[k]) {
        lemma_run_end(s, k + 1);
    }
}

/// The value of a run of digits grows as the run goes on.
proof fn lemma_digits_value_grows(s: Seq<char>, i: int, k: int, j: int)
    requires
        i <= k <= j,
        forall|m: int| i <= m < j ==> is_ascii_digit(#[trigger] s[m]),
    ensures
        0 <= digits_value(s, i, k) <= digits_value(s, i, j),
    decreases j - k,
{
    if k < j {
        lemma_digits_value_grows(s, i, k, j - 1);
        assert(is_ascii_digit(s[j - 1]));
    } else {
        lemma_digits_value_nonneg(s, i, k);
    }
}

proof fn lemma_digits_value_nonneg(s: Seq<char>, i: int, j: int)
    requires
        forall|m: int| i <= m < j ==> is_ascii_digit(#[trigger] s[m]),
    ensures
        0 <= digits_value(s, i, j),
    decreases j - i,
{
    if j > i {
        lemma_digits_value_nonneg(s, i, j - 1);
        assert(is_ascii_digit(s[j - 1]));
    }
}

/// Whether the run of digits that starts at `i` has a value of at most `limit`.
fn run_value_within(chars: &Vec<char>, i: usize, limit: u64) -> (b: bool)
    requires
        i < chars@.len(),
    ensures
        b == (digits_value(chars@, i as int, run_end(chars@, i as int)) <= limit),
{
    let ghost s = chars@;
    proof {
        lemma_run_end(s, i as int);
    }
    let mut k: usize = i;
    let mut acc: u64 = 0;
    while k < chars.len() && is_digit_char(chars[k])
        invariant
            s == chars@,
            i <= k <= s.len(),
            k <= run_end(s, i as int),
            run_end(s, k as int) == run_end(s, i as int),
            forall|m: int| i <= m < run_end(s, i as int) ==> is_ascii_digit(#[trigger] s[m]),
            acc == digits_value(s, i as int, k as int),
            acc <= limit,
        decreases s.len() - k,
    {
        proof {
            lemma_run_end(s, k + 1);
            assert(run_end(s, k as int) == run_end(s, k + 1));
        }
        let d = (chars[k] as u32 - 48) as u64;
        let next: u128 = acc as u128 * 10 + d as u128;
        assert(next == digits_value(s, i as int, k + 1));
        if next > limit as u128 {
            proof {
                lemma_digits_value_grows(s, i as int, k + 1, run_end(s, i as int));
            }
            return false;
        }
        acc = next as u64;
        k = k + 1;
    }
    true
}

/// Whether every run of digits outside the strings of `text` fits the bound of its
/// place: see `digit_runs_fit`.
pub fn check_digit_runs(text: &str) -> (b: bool)
    ensures
        b == digit_runs_fit(text@),
{
    let chars = chars_of(text);
    let ghost s = chars@;
    let n = chars.len();
    let mut in_string = false;
    let mut escaped = false;
    let mut i: usize = 0;
    while i < n
        invariant
            s == chars@,
            s == text@,
            n == s.len(),
            i <= n,
            (in_string, escaped) == lex_state(s, i as int),
            forall|j: int| 0 <= j < i && #[trigger] run_start(s, j) ==> run_fits(s, j),
        decreases n - i,
    {
        let c = chars[i];
        if !in_string && is_digit_char(c) && (i == 0 || !is_digit_char(chars[i - 1])) {
            assert(run_start(s, i as int));
            let exponent = (i >= 1 && (chars[i - 1] == 'e' || chars[i - 1] == 'E')) || (i >= 2
                && (chars[i - 1] == '+' || chars[i - 1] == '-') && (chars[i - 2] == 'e' || chars[i
                - 2] == 'E'));
            let integer = !exponent && !(i >= 1 && chars[i - 1] == '.');
            let limit: u64 = if exponent {
                2147483647
            } else {
                u64::MAX
            };
            assert(exponent == run_is_exponent(s, i as int));
            assert(integer == run_is_integer(s, i as int));
            assert(limit == run_limit(s, i as int));
            if !(integer && c == '0') && !run_value_within(&chars, i, limit) {
                assert(!run_fits(s, i as int));
                return false;
            }
        } else {
            assert(!run_start(s, i as int));
        }
        if !in_string {
            in_string = c == '"';
            escaped = false;
        } else if escaped {
            escaped = false;
        } else if c == '\\' {
            escaped = true;
        } else {
            in_string = c != '"';
        }
        assert(lex_state(s, i + 1) == (in_string, escaped));
        i = i + 1;
    }
    true
}

/// Whether `key` is the key `CATEGORY`.
fn is_category_key(key: &Vec<char>) -> (b: bool)
    ensures
        b == (key@ == category_key()),
{
    if key.len() != 8 {
        return false;
    }
    let b = key[0] == 'C' && key[1] == 'A' && key[2] == 'T' && key[3] == 'E' && key[4] == 'G'
        && key[5] == 'O' && key[6] == 'R' && key[7] == 'Y';
    if b {
        assert(key@ =~= category_key());
    } else {
        assert(key@ != category_key()) by {
            if key@ == category_key() {
                assert(key@[0] == 'C' && key@[1] == 'A' && key@[2] == 'T' && key@[3] == 'E');
                assert(key@[4] == 'G' && key@[5] == 'O' && key@[6] == 'R' && key@[7] == 'Y');
            }
        }
    }
    b
}

/// The category that a parsed document gives.
pub fn category_from_document(doc: &JsonDocument) -> (r: Option<u32>)
    ensures
        r == category_of(Some(doc@)),
{
    match doc {
        JsonDocument::Value(_) => None,
        JsonDocument::Object(entries) => {
            let ghost members = doc@.unwrap();
            assert(members =~= entries@.map_values(|e: JsonEntry| (e.key@, e.value)));
            let mut i: usize = 0;
            assert(members.skip(0) =~= members);
            while i < entries.len()
                invariant
                    doc@ == Some(members),
                    members == entries@.map_values(|e: JsonEntry| (e.key@, e.value)),
                    i <= entries@.len(),
                    category_in(members) == category_in(members.skip(i as int)),
                decreases entries@.len() - i,
            {
                let entry = &entries[i];
                assert(members.skip(i as int)[0] == members[i as int]);
                assert(members[i as int] == (entries@[i as int].key@, entries@[i as int].value));
                if is_category_key(&entry.key) {
                    let r = match entry.value {
                        JsonMember::Number(integer) => Some(
                            #[verifier::truncate]
                            (integer as u32),
                        ),
                        _ => None,
                    };
                    assert(members.skip(i as int).len() > 0);
                    assert(members.skip(i as int)[0].0 == category_key());
                    assert(r == category_in(members.skip(i as int)));
                    return r;
                }
                assert(members.skip(i as int).drop_first() =~= members.skip(i + 1));
                i = i + 1;
            }
            assert(members.skip(i as int).len() == 0);
            None
        },
    }
}

/// The category that a text gives: a text with a run of digits over its bound gives none
/// (the parser is not called on it), any other text gives the category of what the
/// parser makes of it.
pub open spec fn analytics_of_text(text: Seq<char>) -> Option<u32> {
    if digit_runs_fit(text) {
        category_of(lite_json_parse(text))
    } else {
        None
    }
}

/// The analytics category in a JSON text: the integer part of the number under the first
/// key `CATEGORY` of the object the text holds, cut to 32 bits. A text with a run of
/// digits outside strings over its bound (see `digit_runs_fit`) is answered with `None`
/// without calling the parser, whose arithmetic overflows on such numbers.
pub fn parse_analytics(analytics_str: &str) -> (r: Option<u32>)
    ensures
        r == analytics_of_text(analytics_str@),
        digit_runs_fit(analytics_str@) ==> r == category_of(lite_json_parse(analytics_str@)),
        !digit_runs_fit(analytics_str@) ==> r is None,
{
    if !check_digit_runs(analytics_str) {
        return None;
    }
    match parse_json(analytics_str) {
        Some(doc) => category_from_document(&doc),
        None => None,
    }
}

/// How a request to the analysis service failed.
#[derive(Clone, Copy, Debug, PartialEq, Eq, Structural)]
pub enum HttpError {
    /// The deadline was reached.
    DeadlineReached,
    /// There was an I/O error while sending the request.
    IoError,
    /// The answer was not the one expected.
    Unknown,
}

/// What the text of an answer gives: its category, or `Unknown`.
pub open spec fn category_result(text: Seq<char>) -> Result<u32, HttpError> {
    match analytics_of_text(text) {
        Some(c) => Ok(c),
        None => Err(HttpError::Unknown),
    }
}

/// The category that the analysis service answered with status `code` and `body`: an
/// answer other than 200, a body that is not UTF-8 text, or a text without a category
/// (see `parse_analytics`) is `Unknown`.
pub fn category_from_response(code: u16, body: &[u8]) -> (r: Result<u32, HttpError>)
    ensures
        code != 200 ==> r == Err::<u32, HttpError>(HttpError::Unknown),
        code == 200 && !valid_utf8(body@) ==> r == Err::<u32, HttpError>(HttpError::Unknown),
        code == 200 && valid_utf8(body@) ==> r == category_result(decode_utf8(body@)),
{
    if code != 200 {
        return Err(HttpError::Unknown);
    }
    let text = match str_from_utf8(body) {
        Some(text) => text,
        None => return Err(HttpError::Unknown),
    };
    match parse_analytics(text) {
        Some(category) => Ok(category),
        None => Err(HttpError::Unknown),
    }
}

/// Members whose keys are not `CATEGORY` do not count: putting any number of them in
/// front of an object's members leaves its category as it was, whatever the length of
/// the object.
pub proof fn category_skips_other_keys(prefix: Members, rest: Members)
    requires
        forall|j: int| 0 <= j < prefix.len() ==> #[trigger] prefix[j].0 != category_key(),
    ensures
        category_in(prefix + rest) == category_in(rest),
    decreases prefix.len(),
{
    if prefix.len() > 0 {
        let whole = prefix + rest;
        assert(whole[0] == prefix[0]);
        assert(whole.drop_first() =~= prefix.drop_first() + rest);
        let tail = prefix.drop_first();
        assert forall|j: int| 0 <= j < tail.len() implies #[trigger] tail[j].0 != category_key() by {
            assert(tail[j] == prefix[j + 1]);
        }
        category_skips_other_keys(tail, rest);
    } else {
        assert(prefix + rest =~= rest);
    }
}

/// The first `CATEGORY` member decides the category, whatever members precede it with
/// other keys and whatever follows it: a number gives its integer part cut to 32 bits,
/// any other value gives none.
pub proof fn first_category_member_decides(prefix: Members, value: JsonMember, rest: Members)
    requires
        forall|j: int| 0 <= j < prefix.len() ==> #[trigger] prefix[j].0 != category_key(),
    ensures
        category_in(prefix + seq![(category_key(), value)] + rest) == match value {
            JsonMember::Number(integer) => Some(integer as u32),
            _ => None::<u32>,
        },
{
    assert(prefix + seq![(category_key(), value)] + rest =~= prefix + (seq![(category_key(), value)]
        + rest));
    category_skips_other_keys(prefix, seq![(category_key(), value)] + rest);
    let tail = seq![(category_key(), value)] + rest;
    assert(tail[0] == (category_key(), value));
}

/// An object without a `CATEGORY` member gives no category.
pub proof fn no_category_key_no_category(members: Members)
    requires
        forall|j: int| 0 <= j < members.len() ==> #[trigger] members[j].0 != category_key(),
    ensures
        category_in(members) is None,
{
    category_skips_other_keys(members, Seq::empty());
    assert(members + Seq::<(Seq<char>, JsonMember)>::empty() =~= members);
}

/// The answer to a status-200 UTF-8 body is `Ok(c)` exactly when its text gives the
/// category `c`, for every `c` (0 included), and `Unknown` exactly when it gives none;
/// on a text whose digit runs fit, the category is the one of the parsed object.
pub proof fn response_answers_the_text_category(text: Seq<char>, c: u32)
    ensures
        (category_result(text) == Ok::<u32, HttpError>(c)) <==> (analytics_of_text(text) == Some(c)),
        (category_result(text) == Err::<u32, HttpError>(HttpError::Unknown)) <==> (analytics_of_text(
            text,
        ) is None),
        category_result(text) is Ok || category_result(text) == Err::<u32, HttpError>(
            HttpError::Unknown,
        ),
        digit_runs_fit(text) ==> ((category_result(text) == Ok::<u32, HttpError>(c)) <==> (category_of(
            lite_json_parse(text),
        ) == Some(c))),
        !digit_runs_fit(text) ==> category_result(text) == Err::<u32, HttpError>(HttpError::Unknown),
{
}

/// Only an object has a category, and it is the one its members give; a text the parser
/// refuses, or a value that is not an object, gives none.
pub proof fn only_objects_have_a_category(members: Members)
    ensures
        category_of(Some(Some(members))) == category_in(members),
        category_of(Some(None)) is None,
        category_of(None) is None,
{
}

/// Ten to the power `n`.
pub open spec fn pow10(n: nat) -> int
    decreases n,
{
    if n == 0 {
        1
    } else {
        10 * pow10((n - 1) as nat)
    }
}

proof fn lemma_digits_value_below_pow10(s: Seq<char>, i: int, j: int)
    requires
        i <= j,
        forall|m: int| i <= m < j ==> is_ascii_digit(#[trigger] s[m]),
    ensures
        digits_value(s, i, j) < pow10((j - i) as nat),
    decreases j - i,
{
    if j > i {
        lemma_digits_value_below_pow10(s, i, j - 1);
        assert(is_ascii_digit(s[j - 1]));
        assert(pow10((j - i) as nat) == 10 * pow10((j - 1 - i) as nat));
    }
}

/// A text always fits when each run of digits outside strings has at most nine digits
/// after an exponent mark and at most nineteen elsewhere: such runs are below `i32::MAX`
/// and `u64::MAX`.
pub proof fn short_digit_runs_fit(s: Seq<char>)
    requires
        forall|i: int| #[trigger]
            run_start(s, i) ==> run_end(s, i) - i <= 19 && (run_is_exponent(s, i) ==> run_end(s, i)
                - i <= 9),
    ensures
        digit_runs_fit(s),
{
    assert(pow10(9) == 1000000000) by {
        reveal_with_fuel(pow10, 10);
    }
    assert(pow10(19) == 10000000000000000000) by {
        reveal_with_fuel(pow10, 20);
    }
    assert forall|i: int| #[trigger] run_start(s, i) implies run_fits(s, i) by {
        lemma_run_end(s, i);
        let j = run_end(s, i);
        lemma_digits_value_below_pow10(s, i, j);
        if run_is_exponent(s, i) {
            lemma_pow10_grows((j - i) as nat, 9);
        } else {
            lemma_pow10_grows((j - i) as nat, 19);
        }
    }
}

/// A number the parser would overflow on is refused: an integer part (not a lone 0) or a
/// fraction above `u64::MAX`, or an exponent above `i32::MAX`.
pub proof fn overflowing_runs_are_refused(s: Seq<char>, i: int)
    requires
        run_start(s, i),
    ensures
        (!run_is_exponent(s, i) && !(run_is_integer(s, i) && s[i] == '0') && digits_value(
            s,
            i,
            run_end(s, i),
        ) > u64::MAX) ==> !digit_runs_fit(s),
        (run_is_exponent(s, i) && digits_value(s, i, run_end(s, i)) > i32::MAX) ==> !digit_runs_fit(
            s,
        ),
{
}

proof fn lemma_pow10_grows(a: nat, b: nat)
    requires
        a <= b,
    ensures
        pow10(a) <= pow10(b),
    decreases b,
{
    if a < b {
        lemma_pow10_grows(a, (b - 1) as nat);
        lemma_pow10_pos((b - 1) as nat);
    }
}

proof fn lemma_pow10_pos(n: nat)
    ensures
        pow10(n) >= 1,
    decreases n,
{
    if n > 0 {
        lemma_pow10_pos((n - 1) as nat);
    }
}

} // verus!
